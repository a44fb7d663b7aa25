//! Text helpers: characters of a string, ASCII case folding, decimal digits,
//! and the few std text functions the listing logic relies on.
use vstd::prelude::*;

verus! {

/// What `str::to_lowercase` returns for a string (full Unicode lower-casing).
pub uninterp spec fn lowercase(s: Seq<char>) -> Seq<char>;

/// What `Path::new(p).extension()` gives for the path `p`, as text.
pub uninterp spec fn path_extension(p: Seq<char>) -> Option<Seq<char>>;

/// What `Path::new(p).parent()` gives for the path `p`, as text.
pub uninterp spec fn path_parent(p: Seq<char>) -> Option<Seq<char>>;

/// What `Path::new(p).file_name()` gives for the path `p`, as text.
pub uninterp spec fn path_file_name(p: Seq<char>) -> Option<Seq<char>>;

/// What `Path::new(a).join(b)` gives on Unix, as text: `b` when it is
/// absolute; otherwise `a`, then a `/` unless `a` is empty or already ends
/// with one, then `b`.
pub open spec fn path_joined(a: Seq<char>, b: Seq<char>) -> Seq<char> {
    if b.len() > 0 && b[0] == '/' {
        b
    } else if a.len() > 0 && a.last() != '/' {
        a + seq!['/'] + b
    } else {
        a + b
    }
}

/// Calls `Path::join`, which pushes `b` onto `a` as `PathBuf::push` does on
/// Unix: an absolute `b` replaces `a`; otherwise one separator is put between
/// them when `a` is not empty and does not end with one. Joining two paths
/// given as text gives valid text, so the conversion back to a `String` is
/// exact.
#[verifier::external_body]
pub(crate) fn join_path(a: &str, b: &str) -> (r: String)
    ensures
        r@ == path_joined(a@, b@),
{
    std::path::Path::new(a).join(b).to_string_lossy().into_owned()
}

/// What `Path::new(p).with_extension(e)` gives, as text.
pub uninterp spec fn path_with_extension(p: Seq<char>, e: Seq<char>) -> Seq<char>;

/// Calls `Path::with_extension`. The result of text paths is valid text, so
/// the conversion back to a `String` is exact. Recent std panics on an
/// extension that holds a path separator, so the extension may hold no `/`.
#[verifier::external_body]
pub(crate) fn with_extension(p: &str, e: &str) -> (r: String)
    requires
        !e@.contains('/'),
    ensures
        r@ == path_with_extension(p@, e@),
{
    std::path::Path::new(p).with_extension(e).to_string_lossy().into_owned()
}

/// What `str::to_uppercase` returns for a string (full Unicode upper-casing).
pub uninterp spec fn uppercase(s: Seq<char>) -> Seq<char>;

/// Calls `str::to_uppercase`; the result is the named upper-casing of `s`.
#[verifier::external_body]
pub(crate) fn to_uppercase(s: &str) -> (r: String)
    ensures
        r@ == uppercase(s@),
{
    s.to_uppercase()
}

/// Calls `Path::file_name` on `path`. A file name taken from a path given as
/// text is itself valid text, so the conversion back to a `String` is exact.
#[verifier::external_body]
pub(crate) fn file_name_of(path: &str) -> (r: Option<String>)
    ensures
        match r {
            Some(n) => path_file_name(path@) == Some(n@),
            None => path_file_name(path@) is None,
        },
{
    match std::path::Path::new(path).file_name() {
        Some(n) => Some(n.to_string_lossy().into_owned()),
        None => None,
    }
}

/// Calls `str::to_lowercase`; the result is the named lower-casing of `s`.
#[verifier::external_body]
pub(crate) fn to_lowercase(s: &str) -> (r: String)
    ensures
        r@ == lowercase(s@),
{
    s.to_lowercase()
}

/// Calls `Path::extension` on `path`. The extension of a path given as text
/// is itself valid text, so the conversion back to a `String` is exact.
#[verifier::external_body]
pub(crate) fn extension_of(path: &str) -> (r: Option<String>)
    ensures
        match r {
            Some(e) => path_extension(path@) == Some(e@),
            None => path_extension(path@) is None,
        },
{
    match std::path::Path::new(path).extension() {
        Some(e) => Some(e.to_string_lossy().into_owned()),
        None => None,
    }
}

/// Calls `Path::parent` on `path`, returning the parent as text.
#[verifier::external_body]
pub(crate) fn parent_of(path: &str) -> (r: Option<String>)
    ensures
        match r {
            Some(e) => path_parent(path@) == Some(e@),
            None => path_parent(path@) is None,
        },
{
    match std::path::Path::new(path).parent() {
        Some(p) => Some(p.to_string_lossy().into_owned()),
        None => None,
    }
}

/// Calls `String::push`, which appends one character.
#[verifier::external_body]
pub(crate) fn push_char(s: &mut String, c: char)
    ensures
        final(s)@ == old(s)@.push(c),
{
    s.push(c);
}

/// The characters of `s`, in order.
pub fn chars_of(s: &str) -> (r: Vec<char>)
    ensures
        r@ == s@,
{
    let mut out: Vec<char> = Vec::new();
    for c in it: s.chars()
        invariant
            it.seq() == s@,
            out@ == it.seq().take(it.index() as int),
    {
        out.push(c);
    }
    out
}

/// Append the characters of `s` to `out`.
pub fn push_str(out: &mut String, s: &str)
    ensures
        final(out)@ == old(out)@ + s@,
{
    let cs = chars_of(s);
    let mut i: usize = 0;
    while i < cs.len()
        invariant
            0 <= i <= cs@.len(),
            cs@ == s@,
            out@ == old(out)@ + cs@.take(i as int),
        decreases cs@.len() - i,
    {
        push_char(out, cs[i]);
        assert(cs@.take(i as int).push(cs@[i as int]) =~= cs@.take(i + 1));
        i = i + 1;
    }
    assert(cs@.take(cs@.len() as int) =~= cs@);
}

/// A string made of the given characters.
pub fn string_of(cs: &Vec<char>) -> (r: String)
    ensures
        r@ == cs@,
{
    let mut out = String::new();
    let mut i: usize = 0;
    while i < cs.len()
        invariant
            0 <= i <= cs@.len(),
            out@ == cs@.take(i as int),
        decreases cs@.len() - i,
    {
        push_char(&mut out, cs[i]);
        assert(cs@.take(i as int).push(cs@[i as int]) =~= cs@.take(i + 1));
        i = i + 1;
    }
    assert(cs@.take(cs@.len() as int) =~= cs@);
    out
}

/// Are the characters in `a` exactly those of `b`?
pub fn chars_equal(a: &Vec<char>, b: &str) -> (r: bool)
    ensures
        r == (a@ == b@),
{
    let bs = chars_of(b);
    if a.len() != bs.len() {
        return false;
    }
    let mut i: usize = 0;
    while i < a.len()
        invariant
            0 <= i <= a@.len(),
            a@.len() == bs@.len(),
            bs@ == b@,
            forall|k: int| 0 <= k < i ==> a@[k] == bs@[k],
        decreases a@.len() - i,
    {
        if a[i] != bs[i] {
            return false;
        }
        i = i + 1;
    }
    assert(a@ =~= bs@);
    true
}

/// ASCII upper-case letters to lower case; every other character unchanged.
pub open spec fn ascii_lower(c: char) -> char {
    if 'A' <= c <= 'Z' {
        ((c as u32) + 32) as char
    } else {
        c
    }
}

pub open spec fn ascii_lower_seq(s: Seq<char>) -> Seq<char> {
    s.map_values(|c: char| ascii_lower(c))
}

/// `char::to_ascii_lowercase`.
pub fn to_ascii_lower(c: char) -> (r: char)
    ensures
        r == ascii_lower(c),
{
    if 'A' <= c && c <= 'Z' {
        let u: u8 = c as u8;
        (u + 32) as char
    } else {
        c
    }
}

/// Does `s` end with the characters of `suffix`?
pub open spec fn ends_with(s: Seq<char>, suffix: Seq<char>) -> bool {
    suffix.len() <= s.len() && s.subrange(s.len() - suffix.len(), s.len() as int) == suffix
}

/// Does `s` start with the characters of `prefix`?
pub open spec fn starts_with(s: Seq<char>, prefix: Seq<char>) -> bool {
    prefix.len() <= s.len() && s.take(prefix.len() as int) == prefix
}

/// Does `s`, with ASCII letters folded to lower case, end with `suffix`?
pub fn ends_with_ascii_ci(s: &Vec<char>, suffix: &str) -> (r: bool)
    ensures
        r == ends_with(ascii_lower_seq(s@), suffix@),
{
    let suf = chars_of(suffix);
    if suf.len() > s.len() {
        return false;
    }
    let start: usize = s.len() - suf.len();
    let mut i: usize = 0;
    while i < suf.len()
        invariant
            0 <= i <= suf@.len(),
            suf@ == suffix@,
            start + suf@.len() == s@.len(),
            s@.len() == s.len(),
            forall|k: int| 0 <= k < i ==> ascii_lower(s@[start + k]) == suf@[k],
        decreases suf@.len() - i,
    {
        if to_ascii_lower(s[start + i]) != suf[i] {
            assert(ascii_lower_seq(s@).subrange(start as int, s@.len() as int)[i as int]
                != suffix@[i as int]);
            return false;
        }
        i = i + 1;
    }
    assert(ascii_lower_seq(s@).subrange(start as int, s@.len() as int) =~= suffix@);
    true
}

/// Does the character sequence `s` start with `prefix`?
pub fn starts_with_chars(s: &Vec<char>, prefix: &Vec<char>) -> (r: bool)
    ensures
        r == starts_with(s@, prefix@),
{
    if prefix.len() > s.len() {
        return false;
    }
    let mut i: usize = 0;
    while i < prefix.len()
        invariant
            0 <= i <= prefix@.len(),
            prefix@.len() <= s@.len(),
            forall|k: int| 0 <= k < i ==> s@[k] == prefix@[k],
        decreases prefix@.len() - i,
    {
        if s[i] != prefix[i] {
            assert(s@.take(prefix@.len() as int)[i as int] != prefix@[i as int]);
            return false;
        }
        i = i + 1;
    }
    assert(s@.take(prefix@.len() as int) =~= prefix@);
    true
}

/// The decimal digits of `n`, most significant first, without leading zeros
/// ("0" for zero).
pub open spec fn decimal(n: nat) -> Seq<char>
    decreases n,
{
    if n < 10 {
        seq![digit_char(n)]
    } else {
        decimal(n / 10).push(digit_char(n % 10))
    }
}

pub open spec fn digit_char(d: nat) -> char {
    ((d + 48) as u32) as char
}

/// `n` in decimal, padded on the left with zeros to at least `width` characters.
pub open spec fn zero_padded(n: nat, width: nat) -> Seq<char> {
    let ds = decimal(n);
    if ds.len() < width {
        Seq::new((width - ds.len()) as nat, |i: int| '0') + ds
    } else {
        ds
    }
}

/// The decimal digits of `n`.
pub fn decimal_digits(n: u64) -> (r: Vec<char>)
    ensures
        r@ == decimal(n as nat),
    decreases n,
{
    if n < 10 {
        let d: u8 = n as u8;
        let c: char = (d + 48) as char;
        let mut v: Vec<char> = Vec::new();
        v.push(c);
        assert(v@ =~= seq![digit_char(n as nat)]);
        v
    } else {
        let mut v = decimal_digits(n / 10);
        let d: u8 = (n % 10) as u8;
        v.push((d + 48) as char);
        v
    }
}

/// Append `n` in decimal, zero-padded to at least `width` characters.
pub fn push_padded(out: &mut String, n: u64, width: usize)
    ensures
        final(out)@ == old(out)@ + zero_padded(n as nat, width as nat),
{
    let ds = decimal_digits(n);
    let ghost start = out@;
    if ds.len() < width {
        let pad: usize = width - ds.len();
        let mut i: usize = 0;
        while i < pad
            invariant
                0 <= i <= pad,
                out@ == start + Seq::new(i as nat, |k: int| '0'),
            decreases pad - i,
        {
            push_char(out, '0');
            assert(start + Seq::new(i as nat, |k: int| '0') + seq!['0'] =~= start + Seq::new(
                (i + 1) as nat,
                |k: int| '0',
            ));
            i = i + 1;
        }
    }
    let ghost mid = out@;
    let s = string_of(&ds);
    push_str(out, s.as_str());
    assert(out@ =~= old(out)@ + zero_padded(n as nat, width as nat));
}


/// The characters `lo..hi` of `cs`.
pub fn slice_chars(cs: &Vec<char>, lo: usize, hi: usize) -> (r: Vec<char>)
    requires
        lo <= hi <= cs@.len(),
    ensures
        r@ == cs@.subrange(lo as int, hi as int),
{
    let mut out: Vec<char> = Vec::new();
    let mut i: usize = lo;
    while i < hi
        invariant
            lo <= i <= hi,
            hi <= cs@.len(),
            out@ == cs@.subrange(lo as int, i as int),
        decreases hi - i,
    {
        out.push(cs[i]);
        assert(cs@.subrange(lo as int, i as int).push(cs@[i as int]) =~= cs@.subrange(
            lo as int,
            i + 1,
        ));
        i = i + 1;
    }
    out
}

/// The position of the first `c` in `s`, if any.
pub open spec fn first_index_of(s: Seq<char>, c: char) -> Option<int> {
    if exists|i: int| 0 <= i < s.len() && s[i] == c {
        Some(choose|i: int| 0 <= i < s.len() && s[i] == c && forall|j: int| 0 <= j < i ==> s[j] != c)
    } else {
        None
    }
}

/// The position of the first `c` in `cs`, if any.
pub fn find_char(cs: &Vec<char>, c: char) -> (r: Option<usize>)
    ensures
        match r {
            Some(i) => i < cs@.len() && cs@[i as int] == c && forall|j: int| 0 <= j < i ==> cs@[j]
                != c,
            None => forall|j: int| 0 <= j < cs@.len() ==> cs@[j] != c,
        },
        r matches Some(i) ==> first_index_of(cs@, c) == Some(i as int),
        r is None ==> first_index_of(cs@, c) is None,
{
    let mut i: usize = 0;
    while i < cs.len()
        invariant
            0 <= i <= cs@.len(),
            forall|j: int| 0 <= j < i ==> cs@[j] != c,
        decreases cs@.len() - i,
    {
        if cs[i] == c {
            proof {
                let w = choose|k: int| 0 <= k < cs@.len() && cs@[k] == c && forall|j: int|
                    0 <= j < k ==> cs@[j] != c;
                assert(0 <= i < cs@.len() && cs@[i as int] == c && forall|j: int|
                    0 <= j < i ==> cs@[j] != c);
                if w < i {
                } else if w > i {
                    assert(cs@[i as int] != c);
                }
            }
            return Some(i);
        }
        i = i + 1;
    }
    None
}

/// `s` without the `c` characters at its end.
pub open spec fn trim_end_char(s: Seq<char>, c: char) -> Seq<char>
    decreases s.len(),
{
    if s.len() > 0 && s.last() == c {
        trim_end_char(s.drop_last(), c)
    } else {
        s
    }
}

/// `str::trim_end_matches` with a single character.
pub fn trim_end_chars(cs: &Vec<char>, c: char) -> (r: Vec<char>)
    ensures
        r@ == trim_end_char(cs@, c),
{
    let mut n: usize = cs.len();
    assert(cs@.take(cs@.len() as int) =~= cs@);
    while n > 0 && cs[n - 1] == c
        invariant
            0 <= n <= cs@.len(),
            trim_end_char(cs@.take(n as int), c) == trim_end_char(cs@, c),
        decreases n,
    {
        assert(cs@.take(n as int).drop_last() =~= cs@.take(n - 1));
        n = n - 1;
    }
    assert(cs@.subrange(0, n as int) =~= cs@.take(n as int));
    slice_chars(cs, 0, n)
}

/// The position of the last `c` in `s`, if any.
pub open spec fn last_index_of(s: Seq<char>, c: char) -> Option<int> {
    if exists|i: int| 0 <= i < s.len() && s[i] == c {
        Some(choose|i: int| 0 <= i < s.len() && s[i] == c && forall|j: int| i < j < s.len() ==> s[j] != c)
    } else {
        None
    }
}

/// The position of the last `c` in `cs`, if any (`str::rfind`).
pub fn rfind_char(cs: &Vec<char>, c: char) -> (r: Option<usize>)
    ensures
        r matches Some(i) ==> last_index_of(cs@, c) == Some(i as int) && i < cs@.len(),
        r is None ==> last_index_of(cs@, c) is None,
{
    let mut n: usize = cs.len();
    while n > 0
        invariant
            0 <= n <= cs@.len(),
            forall|j: int| n <= j < cs@.len() ==> cs@[j] != c,
        decreases n,
    {
        if cs[n - 1] == c {
            let i = n - 1;
            proof {
                let w = choose|k: int| 0 <= k < cs@.len() && cs@[k] == c && forall|j: int|
                    k < j < cs@.len() ==> cs@[j] != c;
                assert(0 <= i < cs@.len() && cs@[i as int] == c && forall|j: int|
                    i < j < cs@.len() ==> cs@[j] != c);
                if w < i {
                } else if w > i {
                    assert(cs@[w] != c);
                }
            }
            return Some(i);
        }
        n = n - 1;
    }
    None
}

/// Does `needle` occur in `hay` as a run of consecutive characters?
pub open spec fn seq_contains(hay: Seq<char>, needle: Seq<char>) -> bool {
    exists|i: int| 0 <= i && i + needle.len() <= hay.len() && #[trigger] hay.subrange(i, i + needle.len()) == needle
}

fn occurs_at(hay: &Vec<char>, needle: &Vec<char>, i: usize) -> (r: bool)
    requires
        i + needle@.len() <= hay@.len(),
    ensures
        r == (hay@.subrange(i as int, i + needle@.len()) == needle@),
{
    let n = hay.len();
    let mut k: usize = 0;
    while k < needle.len()
        invariant
            0 <= k <= needle@.len(),
            n == hay@.len(),
            i + needle@.len() <= hay@.len(),
            forall|j: int| 0 <= j < k ==> hay@[i + j] == needle@[j],
        decreases needle@.len() - k,
    {
        assert(i + k < hay@.len());
        if hay[i + k] != needle[k] {
            assert(hay@.subrange(i as int, i + needle@.len())[k as int] != needle@[k as int]);
            return false;
        }
        k = k + 1;
    }
    assert(hay@.subrange(i as int, i + needle@.len()) =~= needle@);
    true
}

/// `str::contains` with a string pattern, on characters.
pub fn contains_chars(hay: &Vec<char>, needle: &Vec<char>) -> (r: bool)
    ensures
        r == seq_contains(hay@, needle@),
{
    if needle.len() > hay.len() {
        return false;
    }
    let last: usize = hay.len() - needle.len();
    let mut i: usize = 0;
    loop
        invariant
            i <= last,
            last + needle@.len() == hay@.len(),
            forall|j: int| 0 <= j < i ==> #[trigger] hay@.subrange(j, j + needle@.len()) != needle@,
        decreases last - i,
    {
        if occurs_at(hay, needle, i) {
            return true;
        }
        if i == last {
            proof {
                assert forall|j: int| 0 <= j && j + needle@.len() <= hay@.len() implies
                    #[trigger] hay@.subrange(j, j + needle@.len()) != needle@ by {
                    assert(j <= last);
                }
            }
            return false;
        }
        i = i + 1;
    }
}

/// `n` in decimal, as a string.
pub fn decimal_string(n: u64) -> (r: String)
    ensures
        r@ == decimal(n as nat),
{
    let ds = decimal_digits(n);
    string_of(&ds)
}

/// The parts joined with `sep` between them.
pub open spec fn joined(parts: Seq<Seq<char>>, sep: Seq<char>) -> Seq<char>
    decreases parts.len(),
{
    if parts.len() == 0 {
        Seq::empty()
    } else if parts.len() == 1 {
        parts[0]
    } else {
        joined(parts.drop_last(), sep) + sep + parts.last()
    }
}

/// `[String]::join`.
pub fn join_strings(parts: &[String], sep: &str) -> (r: String)
    ensures
        r@ == joined(parts@.map_values(|p: String| p@), sep@),
{
    let ghost ps = parts@.map_values(|p: String| p@);
    let mut out = String::new();
    let mut k: usize = 0;
    while k < parts.len()
        invariant
            0 <= k <= parts@.len(),
            ps == parts@.map_values(|p: String| p@),
            out@ == joined(ps.take(k as int), sep@),
        decreases parts@.len() - k,
    {
        if k > 0 {
            push_str(&mut out, sep);
        }
        push_str(&mut out, parts[k].as_str());
        proof {
            let t = ps.take(k + 1);
            assert(t.drop_last() =~= ps.take(k as int));
            assert(t.last() == parts@[k as int]@);
            if k == 0 {
                assert(t.len() == 1);
            }
        }
        k = k + 1;
    }
    assert(ps.take(parts@.len() as int) =~= ps);
    out
}

/// How many bytes UTF-8 takes for `c`.
pub open spec fn char_width(c: char) -> nat {
    if (c as u32) < 0x80 {
        1
    } else if (c as u32) < 0x800 {
        2
    } else if (c as u32) < 0x10000 {
        3
    } else {
        4
    }
}

/// How many bytes UTF-8 takes for `s` (what `str::len` returns).
pub open spec fn utf8_len(s: Seq<char>) -> nat
    decreases s.len(),
{
    if s.len() == 0 {
        0
    } else {
        utf8_len(s.drop_last()) + char_width(s.last())
    }
}

/// Is byte `n` of `s` where a character starts (or the end)?
pub open spec fn char_boundary(s: Seq<char>, n: nat) -> bool {
    exists|k: int| 0 <= k <= s.len() && #[trigger] utf8_len(s.take(k)) == n
}

/// The characters of `s` in its first `n` bytes.
pub open spec fn byte_prefix(s: Seq<char>, n: nat) -> Seq<char> {
    s.take(choose|k: int| 0 <= k <= s.len() && #[trigger] utf8_len(s.take(k)) == n)
}

proof fn lemma_utf8_len_grows(s: Seq<char>, j: int, k: int)
    requires
        0 <= j < k <= s.len(),
    ensures
        utf8_len(s.take(j)) < utf8_len(s.take(k)),
    decreases k - j,
{
    assert(s.take(k).drop_last() =~= s.take(k - 1));
    if j < k - 1 {
        lemma_utf8_len_grows(s, j, k - 1);
    }
}

fn width_of(c: char) -> (r: usize)
    ensures
        r == char_width(c),
{
    let v: u32 = c as u32;
    if v < 0x80 {
        1
    } else if v < 0x800 {
        2
    } else if v < 0x10000 {
        3
    } else {
        4
    }
}

/// The byte length of `cs`, or `limit + 1` when it is longer than `limit`.
pub fn utf8_len_capped(cs: &Vec<char>, limit: usize) -> (r: usize)
    requires
        limit < usize::MAX - 4,
    ensures
        r == if utf8_len(cs@) <= limit { utf8_len(cs@) } else { (limit + 1) as nat },
{
    let mut total: usize = 0;
    let mut k: usize = 0;
    while k < cs.len()
        invariant
            0 <= k <= cs@.len(),
            limit < usize::MAX - 4,
            total == utf8_len(cs@.take(k as int)),
            total <= limit,
        decreases cs@.len() - k,
    {
        assert(cs@.take(k + 1).drop_last() =~= cs@.take(k as int));
        let t = total + width_of(cs[k]);
        if t > limit {
            proof {
                lemma_utf8_len_prefix_le(cs@, k + 1);
            }
            return limit + 1;
        }
        total = t;
        k = k + 1;
    }
    assert(cs@.take(cs@.len() as int) =~= cs@);
    total
}

proof fn lemma_utf8_len_prefix_le(s: Seq<char>, k: int)
    requires
        0 <= k <= s.len(),
    ensures
        utf8_len(s.take(k)) <= utf8_len(s),
{
    assert(s.take(s.len() as int) =~= s);
    if k < s.len() {
        lemma_utf8_len_grows(s, k, s.len() as int);
    }
}

/// The characters in the first `n` bytes of `cs`; `n` must fall where a
/// character starts (as `&s[..n]` demands).
pub fn take_bytes(cs: &Vec<char>, n: usize) -> (r: Vec<char>)
    requires
        char_boundary(cs@, n as nat),
    ensures
        r@ == byte_prefix(cs@, n as nat),
{
    let ghost w = choose|k: int| 0 <= k <= cs@.len() && #[trigger] utf8_len(cs@.take(k)) == n;
    let cl = cs.len();
    let mut total: usize = 0;
    let mut k: usize = 0;
    while total < n
        invariant
            cl == cs@.len(),
            0 <= k <= w,
            0 <= w <= cs@.len(),
            utf8_len(cs@.take(w)) == n,
            total == utf8_len(cs@.take(k as int)),
            total <= n,
        decreases n - total,
    {
        proof {
            if k == w {
                assert(false);
            }
            lemma_utf8_len_grows(cs@, k as int, w);
        }
        assert(cs@.take(k + 1).drop_last() =~= cs@.take(k as int));
        proof {
            if k + 1 < w {
                lemma_utf8_len_grows(cs@, k + 1, w);
            }
        }
        total = total + width_of(cs[k]);
        k = k + 1;
    }
    proof {
        if k < w {
            lemma_utf8_len_grows(cs@, k as int, w);
        }
    }
    assert(k == w);
    slice_chars(cs, 0, k)
}


/// Ten to the power `w`.
pub open spec fn pow10(w: nat) -> nat
    decreases w,
{
    if w == 0 {
        1
    } else {
        10 * pow10((w - 1) as nat)
    }
}

/// The last `w` decimal digits of `n`, most significant first.
pub open spec fn digits_w(n: nat, w: nat) -> Seq<char>
    decreases w,
{
    if w == 0 {
        Seq::empty()
    } else {
        digits_w(n / 10, (w - 1) as nat).push(digit_char(n % 10))
    }
}

proof fn lemma_decimal_len(n: nat, w: nat)
    requires
        w >= 1,
        n < pow10(w),
    ensures
        1 <= decimal(n).len() <= w,
    decreases n,
{
    if n >= 10 {
        assert(w >= 2) by {
            if w == 1 {
                assert(pow10(1) == 10 * pow10(0));
            }
        }
        assert(n / 10 < pow10((w - 1) as nat));
        lemma_decimal_len(n / 10, (w - 1) as nat);
    }
}

proof fn lemma_zeros_digits(k: nat)
    ensures
        digits_w(0, k) == Seq::new(k, |i: int| '0'),
    decreases k,
{
    if k > 0 {
        lemma_zeros_digits((k - 1) as nat);
        assert(digit_char(0) == '0');
        assert(digits_w(0, k) =~= Seq::new(k, |i: int| '0'));
    }
}

/// A number below ten to the `w` padded to `w` characters is its last `w` digits.
pub proof fn lemma_zero_padded_digits(n: nat, w: nat)
    requires
        w >= 1,
        n < pow10(w),
    ensures
        zero_padded(n, w) == digits_w(n, w),
        zero_padded(n, w).len() == w,
    decreases w,
{
    lemma_decimal_len(n, w);
    if n < 10 {
        lemma_zeros_digits((w - 1) as nat);
        assert(n / 10 == 0 && n % 10 == n);
        assert(zero_padded(n, w) =~= digits_w(n, w));
    } else {
        assert(w >= 2) by {
            if w == 1 {
                assert(pow10(1) == 10 * pow10(0));
            }
        }
        let v = (w - 1) as nat;
        assert(n / 10 < pow10(v));
        lemma_zero_padded_digits(n / 10, v);
        lemma_decimal_len(n / 10, v);
        assert(decimal(n) == decimal(n / 10).push(digit_char(n % 10)));
        assert(zero_padded(n, w) =~= zero_padded(n / 10, v).push(digit_char(n % 10)));
    }
}

pub(crate) proof fn lemma_digit_char_order(a: nat, b: nat)
    requires
        a < 10,
        b < 10,
    ensures
        (digit_char(a) < digit_char(b)) == (a < b),
        (digit_char(a) == digit_char(b)) == (a == b),
{
}

} // verus!
