//! Character-level text helpers shared by the picker, the settings file and
//! the custom-item store. Every function works on the `Seq<char>` view of a
//! string, so its contract says exactly which characters come out.
use vstd::prelude::*;

verus! {

/// Unicode `White_Space`, the set that `char::is_whitespace` (and therefore
/// `str::trim`) recognises.
pub open spec fn is_ws(c: char) -> bool {
    let v = c as u32;
    ||| 0x09 <= v <= 0x0D
    ||| v == 0x20
    ||| v == 0x85
    ||| v == 0xA0
    ||| v == 0x1680
    ||| 0x2000 <= v <= 0x200A
    ||| v == 0x2028
    ||| v == 0x2029
    ||| v == 0x202F
    ||| v == 0x205F
    ||| v == 0x3000
}

/// `s` without its leading whitespace.
pub open spec fn trim_start(s: Seq<char>) -> Seq<char>
    decreases s.len(),
{
    if s.len() > 0 && is_ws(s[0]) {
        trim_start(s.drop_first())
    } else {
        s
    }
}

/// `s` without its trailing whitespace.
pub open spec fn trim_end(s: Seq<char>) -> Seq<char>
    decreases s.len(),
{
    if s.len() > 0 && is_ws(s.last()) {
        trim_end(s.drop_last())
    } else {
        s
    }
}

/// `s` without leading and trailing whitespace, as `str::trim` gives it.
pub open spec fn trim(s: Seq<char>) -> Seq<char> {
    trim_end(trim_start(s))
}

/// Every character of `s` is whitespace (so `trim(s)` is empty).
pub open spec fn is_blank(s: Seq<char>) -> bool {
    forall|i: int| 0 <= i < s.len() ==> is_ws(#[trigger] s[i])
}

/// Whether a character is whitespace.
pub fn is_ws_char(c: char) -> (r: bool)
    ensures
        r == is_ws(c),
{
    let v = c as u32;
    (0x09 <= v && v <= 0x0D) || v == 0x20 || v == 0x85 || v == 0xA0 || v == 0x1680 || (0x2000
        <= v && v <= 0x200A) || v == 0x2028 || v == 0x2029 || v == 0x202F || v == 0x205F || v
        == 0x3000
}

/// The characters of a string slice.
pub fn chars_of(s: &str) -> (r: Vec<char>)
    ensures
        r@ == s@,
{
    let mut out: Vec<char> = Vec::new();
    for c in it: s.chars()
        invariant
            it.seq() == s@,
            out@ == it.seq().take(it.index() as int),
    {
        out.push(c);
    }
    out
}

/// Copies `s[from..to]`.
pub fn copy_range(s: &Vec<char>, from: usize, to: usize) -> (r: Vec<char>)
    requires
        from <= to <= s.len(),
    ensures
        r@ == s@.subrange(from as int, to as int),
{
    let mut out: Vec<char> = Vec::new();
    let mut i = from;
    while i < to
        invariant
            from <= i <= to <= s.len(),
            out@ == s@.subrange(from as int, i as int),
        decreases to - i,
    {
        out.push(s[i]);
        i += 1;
    }
    out
}

proof fn lemma_trim_start_skip(s: Seq<char>, i: int)
    requires
        0 <= i <= s.len(),
        forall|k: int| 0 <= k < i ==> is_ws(#[trigger] s[k]),
    ensures
        trim_start(s) == trim_start(s.subrange(i, s.len() as int)),
    decreases i,
{
    if i > 0 {
        assert(s.drop_first() =~= s.subrange(1, s.len() as int));
        let t = s.drop_first();
        assert forall|k: int| 0 <= k < i - 1 implies is_ws(#[trigger] t[k]) by {
            assert(t[k] == s[k + 1]);
        }
        lemma_trim_start_skip(t, i - 1);
        assert(t.subrange(i - 1, t.len() as int) =~= s.subrange(i, s.len() as int));
    } else {
        assert(s.subrange(0, s.len() as int) =~= s);
    }
}

proof fn lemma_trim_end_take(s: Seq<char>, j: int)
    requires
        0 <= j <= s.len(),
        forall|k: int| j <= k < s.len() ==> is_ws(#[trigger] s[k]),
    ensures
        trim_end(s) == trim_end(s.subrange(0, j)),
    decreases s.len() - j,
{
    if j < s.len() {
        let t = s.drop_last();
        assert forall|k: int| j <= k < t.len() implies is_ws(#[trigger] t[k]) by {
            assert(t[k] == s[k]);
        }
        lemma_trim_end_take(t, j);
        assert(t.subrange(0, j) =~= s.subrange(0, j));
    } else {
        assert(s.subrange(0, j) =~= s);
    }
}

/// `str::trim` on a character vector.
pub fn trim_chars(s: &Vec<char>) -> (r: Vec<char>)
    ensures
        r@ == trim(s@),
{
    let n = s.len();
    let mut i: usize = 0;
    while i < n && is_ws_char(s[i])
        invariant
            n == s.len(),
            i <= n,
            forall|k: int| 0 <= k < i ==> is_ws(#[trigger] s@[k]),
        decreases n - i,
    {
        i += 1;
    }
    proof {
        lemma_trim_start_skip(s@, i as int);
        let rest = s@.subrange(i as int, n as int);
        assert(rest.len() == 0 || !is_ws(rest[0]));
        assert(trim_start(rest) == rest);
    }
    let mut j: usize = n;
    while j > i && is_ws_char(s[j - 1])
        invariant
            n == s.len(),
            i <= j <= n,
            forall|k: int| j <= k < n ==> is_ws(#[trigger] s@[k]),
        decreases j,
    {
        j -= 1;
    }
    proof {
        let rest = s@.subrange(i as int, n as int);
        assert forall|k: int| j - i <= k < rest.len() implies is_ws(#[trigger] rest[k]) by {
            assert(rest[k] == s@[k + i]);
        }
        lemma_trim_end_take(rest, j - i);
        let core = rest.subrange(0, j - i);
        assert(core =~= s@.subrange(i as int, j as int));
        assert(core.len() == 0 || !is_ws(core.last()));
        assert(trim_end(core) == core);
    }
    copy_range(s, i, j)
}

/// Whether `trim(s)` is empty, i.e. `s.trim().is_empty()`.
pub fn is_blank_chars(s: &Vec<char>) -> (r: bool)
    ensures
        r == (trim(s@).len() == 0),
        r == is_blank(s@),
{
    let n = s.len();
    let mut i: usize = 0;
    while i < n
        invariant
            n == s.len(),
            i <= n,
            forall|k: int| 0 <= k < i ==> is_ws(#[trigger] s@[k]),
        decreases n - i,
    {
        if !is_ws_char(s[i]) {
            proof {
                lemma_trim_keeps_non_ws(s@, i as int);
            }
            return false;
        }
        i += 1;
    }
    proof {
        lemma_trim_start_skip(s@, n as int);
        assert(s@.subrange(n as int, n as int).len() == 0);
    }
    true
}

/// A string whose character `i` is not whitespace keeps a non-empty trim.
proof fn lemma_trim_keeps_non_ws(s: Seq<char>, i: int)
    requires
        0 <= i < s.len(),
        !is_ws(s[i]),
        forall|k: int| 0 <= k < i ==> is_ws(#[trigger] s[k]),
    ensures
        trim(s).len() > 0,
{
    lemma_trim_start_skip(s, i);
    let rest = s.subrange(i, s.len() as int);
    assert(trim_start(rest) == rest);
    lemma_trim_end_nonempty(rest);
}

proof fn lemma_trim_end_nonempty(s: Seq<char>)
    requires
        s.len() > 0,
        !is_ws(s[0]),
    ensures
        trim_end(s).len() > 0,
    decreases s.len(),
{
    if is_ws(s.last()) {
        assert(s.len() > 1);
        let t = s.drop_last();
        assert(t[0] == s[0]);
        lemma_trim_end_nonempty(t);
    }
}


/// `str::split('\n')`: the pieces between newlines (an empty string gives
/// one empty piece).
pub open spec fn split_nl(s: Seq<char>) -> Seq<Seq<char>>
    decreases s.len(),
{
    if s.len() == 0 {
        seq![Seq::<char>::empty()]
    } else {
        let parts = split_nl(s.drop_last());
        if s.last() == '\n' {
            parts.push(Seq::<char>::empty())
        } else {
            parts.update(parts.len() - 1, parts.last().push(s.last()))
        }
    }
}

/// A line that ended in `"\r\n"` loses its carriage return.
pub open spec fn strip_cr(line: Seq<char>) -> Seq<char> {
    if line.len() > 0 && line.last() == '\r' {
        line.drop_last()
    } else {
        line
    }
}

/// `str::lines`: split at `'\n'`, a final line ending is optional, and a
/// `'\r'` directly before a `'\n'` is dropped with it.
pub open spec fn lines_of(s: Seq<char>) -> Seq<Seq<char>> {
    if s.len() == 0 {
        Seq::empty()
    } else {
        let parts = split_nl(s);
        let ended = s.last() == '\n';
        let kept = if ended {
            parts.drop_last()
        } else {
            parts
        };
        Seq::new(
            kept.len(),
            |i: int|
                if ended || i < kept.len() - 1 {
                    strip_cr(kept[i])
                } else {
                    kept[i]
                },
        )
    }
}

/// Splitting at newlines gives at least one piece.
pub proof fn lemma_split_nl_len(s: Seq<char>)
    ensures
        split_nl(s).len() >= 1,
    decreases s.len(),
{
    if s.len() > 0 {
        lemma_split_nl_len(s.drop_last());
    }
}

/// `str::split('\n')` on a character vector.
pub fn split_newlines(s: &Vec<char>) -> (r: Vec<Vec<char>>)
    ensures
        r@.len() == split_nl(s@).len(),
        forall|i: int| 0 <= i < r@.len() ==> #[trigger] r@[i]@ == split_nl(s@)[i],
{
    let n = s.len();
    let mut done: Vec<Vec<char>> = Vec::new();
    let mut cur: Vec<char> = Vec::new();
    let mut i: usize = 0;
    while i < n
        invariant
            n == s.len(),
            i <= n,
            done@.len() + 1 == split_nl(s@.take(i as int)).len(),
            forall|k: int| 0 <= k < done@.len() ==> #[trigger] done@[k]@ == split_nl(s@.take(i as int))[k],
            cur@ == split_nl(s@.take(i as int)).last(),
        decreases n - i,
    {
        proof {
            lemma_split_nl_len(s@.take(i as int));
            assert(s@.take(i as int + 1).drop_last() =~= s@.take(i as int));
        }
        let c = s[i];
        if c == '\n' {
            let finished = cur;
            done.push(finished);
            cur = Vec::new();
        } else {
            cur.push(c);
        }
        i += 1;
    }
    proof {
        assert(s@.take(n as int) =~= s@);
        lemma_split_nl_len(s@);
    }
    let ghost before = done@;
    done.push(cur);
    proof {
        assert forall|k: int| 0 <= k < done@.len() implies #[trigger] done@[k]@ == split_nl(s@)[k] by {
            if k < before.len() {
                assert(done@[k] == before[k]);
            }
        }
    }
    done
}

/// Copies a character vector without its final `'\r'`, if it has one.
fn strip_cr_chars(line: &Vec<char>) -> (r: Vec<char>)
    ensures
        r@ == strip_cr(line@),
{
    let n = line.len();
    if n > 0 && line[n - 1] == '\r' {
        copy_range(line, 0, n - 1)
    } else {
        copy_range(line, 0, n)
    }
}

/// `str::lines` on a character vector.
pub fn lines_chars(s: &Vec<char>) -> (r: Vec<Vec<char>>)
    ensures
        r@.len() == lines_of(s@).len(),
        forall|i: int| 0 <= i < r@.len() ==> #[trigger] r@[i]@ == lines_of(s@)[i],
{
    let mut out: Vec<Vec<char>> = Vec::new();
    let n = s.len();
    if n == 0 {
        return out;
    }
    let parts = split_newlines(s);
    let ended = s[n - 1] == '\n';
    proof {
        lemma_split_nl_len(s@);
    }
    let kept = if ended {
        parts.len() - 1
    } else {
        parts.len()
    };
    let ghost expect = lines_of(s@);
    let mut i: usize = 0;
    while i < kept
        invariant
            n == s.len(),
            n > 0,
            ended == (s@.last() == '\n'),
            parts@.len() == split_nl(s@).len(),
            forall|k: int| 0 <= k < parts@.len() ==> #[trigger] parts@[k]@ == split_nl(s@)[k],
            kept == expect.len(),
            kept <= parts@.len(),
            expect == lines_of(s@),
            i <= kept,
            out@.len() == i,
            forall|k: int| 0 <= k < i ==> #[trigger] out@[k]@ == expect[k],
        decreases kept - i,
    {
        let line = if ended || i + 1 < kept {
            strip_cr_chars(&parts[i])
        } else {
            copy_range(&parts[i], 0, parts[i].len())
        };
        out.push(line);
        i += 1;
    }
    out
}

/// The first line of `s` as `s.lines().next()` gives it.
pub open spec fn first_line(s: Seq<char>) -> Option<Seq<char>> {
    if lines_of(s).len() == 0 {
        None
    } else {
        Some(lines_of(s)[0])
    }
}

/// `s.lines().next()` on a character vector.
pub fn first_line_chars(s: &Vec<char>) -> (r: Option<Vec<char>>)
    ensures
        match r {
            Some(line) => first_line(s@) == Some(line@),
            None => first_line(s@).is_none(),
        },
{
    let mut lines = lines_chars(s);
    if lines.len() == 0 {
        None
    } else {
        let first = lines.swap_remove(0);
        Some(first)
    }
}


/// The UTF-16 code units of one character.
pub open spec fn utf16_of_char(c: char) -> Seq<u16> {
    let v = c as u32;
    if v < 0x10000 {
        seq![v as u16]
    } else {
        seq![(0xD800 + (v - 0x10000) / 0x400) as u16, (0xDC00 + (v - 0x10000) % 0x400) as u16]
    }
}

/// `str::encode_utf16`: the UTF-16 code units of a character sequence.
pub open spec fn utf16_encode(s: Seq<char>) -> Seq<u16>
    decreases s.len(),
{
    if s.len() == 0 {
        Seq::empty()
    } else {
        utf16_encode(s.drop_last()) + utf16_of_char(s.last())
    }
}

/// Appends the UTF-16 code units of `c` to `out`.
pub fn push_utf16(out: &mut Vec<u16>, c: char)
    ensures
        final(out)@ == old(out)@ + utf16_of_char(c),
{
    let v = c as u32;
    if v < 0x10000 {
        out.push(v as u16);
    } else {
        let w = v - 0x10000;
        assert(w < 0x100000);
        out.push((0xD800 + w / 0x400) as u16);
        out.push((0xDC00 + w % 0x400) as u16);
    }
    assert(final(out)@ =~= old(out)@ + utf16_of_char(c));
}

/// The UTF-16 code units of a string slice.
pub fn encode_utf16(s: &str) -> (r: Vec<u16>)
    ensures
        r@ == utf16_encode(s@),
{
    let mut out: Vec<u16> = Vec::new();
    for c in it: s.chars()
        invariant
            it.seq() == s@,
            out@ == utf16_encode(it.seq().take(it.index() as int)),
    {
        proof {
            let k = it.index() as int;
            assert(it.seq().take(k + 1).drop_last() =~= it.seq().take(k));
        }
        push_utf16(&mut out, c);
    }
    proof {
        assert(s@.take(s@.len() as int) =~= s@);
    }
    out
}

/// A UTF-16 high (leading) surrogate.
pub open spec fn is_high_surrogate(u: u16) -> bool {
    0xD800 <= u <= 0xDBFF
}

/// A UTF-16 low (trailing) surrogate.
pub open spec fn is_low_surrogate(u: u16) -> bool {
    0xDC00 <= u <= 0xDFFF
}

/// Lossy UTF-16 decoding: a high surrogate followed by a low surrogate makes
/// one supplementary character, any other surrogate becomes U+FFFD.
pub open spec fn utf16_decode_lossy(u: Seq<u16>) -> Seq<char>
    decreases u.len(),
{
    if u.len() == 0 {
        Seq::empty()
    } else if u.len() >= 2 && is_high_surrogate(u[0]) && is_low_surrogate(u[1]) {
        seq![(0x10000 + (u[0] - 0xD800) * 0x400 + (u[1] - 0xDC00)) as char] + utf16_decode_lossy(
            u.skip(2),
        )
    } else if 0xD800 <= u[0] <= 0xDFFF {
        seq!['\u{FFFD}'] + utf16_decode_lossy(u.drop_first())
    } else {
        seq![u[0] as char] + utf16_decode_lossy(u.drop_first())
    }
}

/// `String::from_utf16_lossy`: decodes UTF-16, replacing every unpaired
/// surrogate with U+FFFD (as the std documentation states).
#[verifier::external_body]
pub fn decode_utf16_lossy(units: &[u16]) -> (r: String)
    ensures
        r@ == utf16_decode_lossy(units@),
{
    String::from_utf16_lossy(units)
}

/// The full Unicode lower-case mapping that `str::to_lowercase` applies.
pub uninterp spec fn lowercase(s: Seq<char>) -> Seq<char>;

/// `str::to_lowercase`; the result is named by `lowercase`, a function of
/// the input characters alone (the Unicode case tables of the standard
/// library), which is not written out here.
#[verifier::external_body]
pub fn to_lowercase(s: &str) -> (r: String)
    ensures
        r@ == lowercase(s@),
{
    s.to_lowercase()
}

/// `String::push`.
#[verifier::external_body]
pub fn push_char(s: &mut String, c: char)
    ensures
        final(s)@ == old(s)@.push(c),
{
    s.push(c)
}

/// A `String` holding exactly the given characters.
pub fn string_from_chars(chars: &Vec<char>) -> (r: String)
    ensures
        r@ == chars@,
{
    let mut out = String::new();
    let mut i: usize = 0;
    while i < chars.len()
        invariant
            i <= chars.len(),
            out@ == chars@.take(i as int),
        decreases chars.len() - i,
    {
        push_char(&mut out, chars[i]);
        proof {
            assert(chars@.take(i as int + 1) =~= chars@.take(i as int).push(chars@[i as int]));
        }
        i += 1;
    }
    proof {
        assert(chars@.take(chars.len() as int) =~= chars@);
    }
    out
}

/// `needle` occurs in `hay` at position `at`.
pub open spec fn occurs_at(hay: Seq<char>, needle: Seq<char>, at: int) -> bool {
    0 <= at && at + needle.len() <= hay.len() && hay.subrange(at, at + needle.len()) == needle
}

/// `str::contains` with a string pattern.
pub open spec fn contains_seq(hay: Seq<char>, needle: Seq<char>) -> bool {
    exists|at: int| occurs_at(hay, needle, at)
}

fn matches_at(hay: &Vec<char>, needle: &Vec<char>, at: usize) -> (r: bool)
    requires
        at + needle.len() <= hay.len(),
    ensures
        r == occurs_at(hay@, needle@, at as int),
{
    let mut k: usize = 0;
    while k < needle.len()
        invariant
            at + needle.len() <= hay.len(),
            k <= needle.len(),
            forall|j: int| 0 <= j < k ==> hay@[at + j] == needle@[j],
        decreases needle.len() - k,
    {
        if hay[at + k] != needle[k] {
            proof {
                let sub = hay@.subrange(at as int, at + needle.len());
                assert(sub[k as int] != needle@[k as int]);
            }
            return false;
        }
        k += 1;
    }
    proof {
        assert(hay@.subrange(at as int, at + needle.len()) =~= needle@);
    }
    true
}

/// Substring search.
pub fn contains_chars(hay: &Vec<char>, needle: &Vec<char>) -> (r: bool)
    ensures
        r == contains_seq(hay@, needle@),
{
    if needle.len() > hay.len() {
        return false;
    }
    let last = hay.len() - needle.len();
    let mut at: usize = 0;
    while at < last
        invariant
            last + needle.len() == hay.len(),
            at <= last,
            forall|j: int| 0 <= j < at ==> !occurs_at(hay@, needle@, j),
        decreases last - at,
    {
        if matches_at(hay, needle, at) {
            return true;
        }
        at += 1;
    }
    if matches_at(hay, needle, last) {
        return true;
    }
    assert forall|j: int| !occurs_at(hay@, needle@, j) by {
        if 0 <= j < last {
        } else if j == last {
        }
    }
    false
}

/// ASCII lower-casing of one code point value.
pub open spec fn ascii_lower(v: u32) -> u32 {
    if 0x41 <= v <= 0x5A {
        (v + 0x20) as u32
    } else {
        v
    }
}

/// `str::eq_ignore_ascii_case`.
pub open spec fn eq_ignore_ascii_case(a: Seq<char>, b: Seq<char>) -> bool {
    a.len() == b.len() && forall|i: int|
        0 <= i < a.len() ==> ascii_lower(#[trigger] a[i] as u32) == ascii_lower(b[i] as u32)
}

fn ascii_lower_u32(v: u32) -> (r: u32)
    ensures
        r == ascii_lower(v),
{
    if 0x41 <= v && v <= 0x5A {
        v + 0x20
    } else {
        v
    }
}

/// `eq_ignore_ascii_case` on character vectors.
pub fn eq_ignore_ascii_case_chars(a: &Vec<char>, b: &Vec<char>) -> (r: bool)
    ensures
        r == eq_ignore_ascii_case(a@, b@),
{
    if a.len() != b.len() {
        return false;
    }
    let mut i: usize = 0;
    while i < a.len()
        invariant
            a.len() == b.len(),
            i <= a.len(),
            forall|k: int| 0 <= k < i ==> ascii_lower(#[trigger] a@[k] as u32) == ascii_lower(b@[k] as u32),
        decreases a.len() - i,
    {
        if ascii_lower_u32(a[i] as u32) != ascii_lower_u32(b[i] as u32) {
            return false;
        }
        i += 1;
    }
    true
}

/// Exact equality of two character vectors.
pub fn chars_eq(a: &Vec<char>, b: &Vec<char>) -> (r: bool)
    ensures
        r == (a@ == b@),
{
    if a.len() != b.len() {
        return false;
    }
    let mut i: usize = 0;
    while i < a.len()
        invariant
            a.len() == b.len(),
            i <= a.len(),
            forall|k: int| 0 <= k < i ==> a@[k] == b@[k],
        decreases a.len() - i,
    {
        if a[i] != b[i] {
            return false;
        }
        i += 1;
    }
    assert(a@ =~= b@);
    true
}


/// No newline in `s`.
pub open spec fn no_newline(s: Seq<char>) -> bool {
    forall|i: int| 0 <= i < s.len() ==> s[i] != '\n'
}

/// Text without a newline is a single piece.
pub proof fn lemma_split_nl_single(s: Seq<char>)
    requires
        no_newline(s),
    ensures
        split_nl(s) == seq![s],
    decreases s.len(),
{
    if s.len() > 0 {
        lemma_split_nl_single(s.drop_last());
        assert(s.drop_last().push(s.last()) =~= s);
        assert(seq![s.drop_last()].update(0, s) =~= seq![s]);
    } else {
        assert(s =~= Seq::<char>::empty());
    }
}

/// Splitting at a newline joins the pieces of the two sides.
pub proof fn lemma_split_nl_concat(a: Seq<char>, b: Seq<char>)
    ensures
        split_nl(a + seq!['\n'] + b) == split_nl(a) + split_nl(b),
    decreases b.len(),
{
    let s = a + seq!['\n'] + b;
    if b.len() == 0 {
        assert(s.drop_last() =~= a);
        assert(b =~= Seq::<char>::empty());
        assert(split_nl(a).push(Seq::<char>::empty()) =~= split_nl(a) + seq![Seq::<char>::empty()]);
    } else {
        assert(s.drop_last() =~= a + seq!['\n'] + b.drop_last());
        lemma_split_nl_concat(a, b.drop_last());
        lemma_split_nl_len(b.drop_last());
        lemma_split_nl_len(a);
        let x = split_nl(a);
        let y = split_nl(b.drop_last());
        if b.last() == '\n' {
            assert((x + y).push(Seq::<char>::empty()) =~= x + y.push(Seq::<char>::empty()));
        } else {
            assert((x + y).update((x + y).len() - 1, (x + y).last().push(b.last())) =~= x + y.update(
                y.len() - 1,
                y.last().push(b.last()),
            ));
        }
    }
}

/// Three newline-terminated lines read back as those three lines.
pub proof fn lemma_lines_of_three(a: Seq<char>, b: Seq<char>, c: Seq<char>)
    requires
        no_newline(a),
        no_newline(b),
        no_newline(c),
        strip_cr(a) == a,
        strip_cr(b) == b,
        strip_cr(c) == c,
    ensures
        lines_of(a + seq!['\n'] + b + seq!['\n'] + c + seq!['\n']) == seq![a, b, c],
{
    let s = a + seq!['\n'] + b + seq!['\n'] + c + seq!['\n'];
    let bc = b + seq!['\n'] + c;
    assert(s =~= a + seq!['\n'] + (bc + seq!['\n'] + Seq::<char>::empty()));
    lemma_split_nl_concat(a, bc + seq!['\n'] + Seq::<char>::empty());
    lemma_split_nl_concat(bc, Seq::<char>::empty());
    lemma_split_nl_concat(b, c);
    lemma_split_nl_single(a);
    lemma_split_nl_single(b);
    lemma_split_nl_single(c);
    lemma_split_nl_single(Seq::<char>::empty());
    assert(split_nl(s) =~= seq![a, b, c, Seq::<char>::empty()]);
    assert(s.last() == '\n');
    assert(lines_of(s) =~= seq![a, b, c]);
}

/// Text that starts and ends with non-whitespace is its own trim.
pub proof fn lemma_trim_unchanged(s: Seq<char>)
    requires
        s.len() > 0,
        !is_ws(s[0]),
        !is_ws(s.last()),
    ensures
        trim(s) == s,
{
    assert(trim_start(s) == s);
}


/// `s` with every `c` replaced by `with`.
pub open spec fn replace_char_spec(s: Seq<char>, c: char, with: Seq<char>) -> Seq<char>
    decreases s.len(),
{
    if s.len() == 0 {
        Seq::empty()
    } else {
        replace_char_spec(s.drop_last(), c, with) + if s.last() == c {
            with
        } else {
            seq![s.last()]
        }
    }
}

/// `str::replace` with a one-character pattern.
pub fn replace_char(s: &Vec<char>, c: char, with: &Vec<char>) -> (r: Vec<char>)
    ensures
        r@ == replace_char_spec(s@, c, with@),
{
    let mut out: Vec<char> = Vec::new();
    let mut i: usize = 0;
    while i < s.len()
        invariant
            i <= s.len(),
            out@ == replace_char_spec(s@.take(i as int), c, with@),
        decreases s.len() - i,
    {
        proof {
            assert(s@.take(i as int + 1).drop_last() =~= s@.take(i as int));
        }
        if s[i] == c {
            let mut k: usize = 0;
            let ghost start = out@;
            while k < with.len()
                invariant
                    k <= with.len(),
                    out@ == start + with@.take(k as int),
                decreases with.len() - k,
            {
                out.push(with[k]);
                proof {
                    assert(with@.take(k as int + 1) =~= with@.take(k as int).push(with@[k as int]));
                }
                k += 1;
            }
            proof {
                assert(with@.take(with.len() as int) =~= with@);
            }
        } else {
            out.push(s[i]);
        }
        proof {
            assert(out@ =~= replace_char_spec(s@.take(i as int + 1), c, with@));
        }
        i += 1;
    }
    proof {
        assert(s@.take(s.len() as int) =~= s@);
    }
    out
}

/// `s` with every `"\r\n"` turned into `"\n"` (left to right, as
/// `str::replace("\r\n", "\n")` scans).
pub open spec fn collapse_crlf(s: Seq<char>) -> Seq<char>
    decreases s.len(),
{
    if s.len() == 0 {
        Seq::empty()
    } else if s.len() >= 2 && s[0] == '\r' && s[1] == '\n' {
        seq!['\n'] + collapse_crlf(s.skip(2))
    } else {
        seq![s[0]] + collapse_crlf(s.drop_first())
    }
}

/// `str::replace("\r\n", "\n")`.
pub fn collapse_crlf_chars(s: &Vec<char>) -> (r: Vec<char>)
    ensures
        r@ == collapse_crlf(s@),
{
    let mut out: Vec<char> = Vec::new();
    let mut i: usize = 0;
    proof {
        assert(s@.skip(0) =~= s@);
        assert(out@ + collapse_crlf(s@) =~= collapse_crlf(s@));
    }
    while i < s.len()
        invariant
            i <= s.len(),
            collapse_crlf(s@) == out@ + collapse_crlf(s@.skip(i as int)),
        decreases s.len() - i,
    {
        let ghost rest = s@.skip(i as int);
        if i + 1 < s.len() && s[i] == '\r' && s[i + 1] == '\n' {
            let ghost before = out@;
            out.push('\n');
            proof {
                assert(rest.skip(2) =~= s@.skip(i as int + 2));
                assert(collapse_crlf(rest) == seq!['\n'] + collapse_crlf(rest.skip(2)));
                assert(before + collapse_crlf(rest) =~= out@ + collapse_crlf(s@.skip(i as int + 2)));
            }
            i += 2;
        } else {
            let ghost before = out@;
            out.push(s[i]);
            proof {
                assert(rest.drop_first() =~= s@.skip(i as int + 1));
                assert(collapse_crlf(rest) == seq![s@[i as int]] + collapse_crlf(rest.drop_first()));
                assert(before + collapse_crlf(rest) =~= out@ + collapse_crlf(s@.skip(i as int + 1)));
            }
            i += 1;
        }
    }
    proof {
        assert(s@.skip(s.len() as int) =~= Seq::<char>::empty());
        assert(out@ + Seq::<char>::empty() =~= out@);
    }
    out
}

} // verus!
