//! Verified text utilities: substring search, prefix tests, the split
//! semantics the daemon-identity parser needs (everything after the first or
//! the last occurrence of a separator), final-path-component extraction, and
//! path joining.

use vstd::prelude::*;

verus! {

/// `needle` occurs contiguously somewhere in `hay`.
pub open spec fn spec_contains_substr(hay: Seq<char>, needle: Seq<char>) -> bool {
    exists|i: int|
        0 <= i && i + needle.len() <= hay.len() && #[trigger] hay.subrange(i, i + needle.len())
            == needle
}

/// `prefix` is an initial segment of `s`.
pub open spec fn spec_starts_with(s: Seq<char>, prefix: Seq<char>) -> bool {
    s.len() >= prefix.len() && s.subrange(0, prefix.len() as int) == prefix
}

/// Everything after the first occurrence of `c` in `s`, or `None` when `c`
/// does not occur.
pub open spec fn after_first(s: Seq<char>, c: char) -> Option<Seq<char>>
    decreases s.len(),
{
    if s.len() == 0 {
        None
    } else if s[0] == c {
        Some(s.skip(1))
    } else {
        after_first(s.skip(1), c)
    }
}

/// Everything after the last occurrence of `c` in `s`; the whole of `s` when
/// `c` does not occur.
pub open spec fn after_last(s: Seq<char>, c: char) -> Seq<char>
    decreases s.len(),
{
    if s.len() == 0 {
        s
    } else if s.last() == c {
        Seq::empty()
    } else {
        after_last(s.drop_last(), c).push(s.last())
    }
}

/// The final path component of `p` under Unix path syntax: trailing
/// separators are ignored, a trailing `.` component is skipped, and there is
/// no final component when the path is empty, all separators, or ends in a
/// `..` component.
pub open spec fn file_name_of(p: Seq<char>) -> Option<Seq<char>>
    decreases p.len(),
{
    if p.len() == 0 {
        None
    } else if p.last() == '/' {
        file_name_of(p.drop_last())
    } else {
        let seg = after_last(p, '/');
        if seg == seq!['.'] {
            file_name_of(p.take(p.len() - seg.len()))
        } else if seg == seq!['.', '.'] {
            None
        } else {
            Some(seg)
        }
    }
}

/// Join a directory and a relative name with a single separator, the way a
/// path join behaves for a relative right-hand side.
pub open spec fn spec_join_path(dir: Seq<char>, name: Seq<char>) -> Seq<char> {
    if dir.len() == 0 {
        name
    } else if dir.last() == '/' {
        dir + name
    } else {
        dir + seq!['/'] + name
    }
}

/// `after_first` returns the suffix that follows the first occurrence of `c`.
pub proof fn lemma_after_first_at(s: Seq<char>, c: char, i: int)
    requires
        0 <= i < s.len(),
        s[i] == c,
        forall|j: int| 0 <= j < i ==> s[j] != c,
    ensures
        after_first(s, c) == Some(s.subrange(i + 1, s.len() as int)),
    decreases i,
{
    if i == 0 {
        assert(s.skip(1) =~= s.subrange(1, s.len() as int));
    } else {
        lemma_after_first_at(s.skip(1), c, i - 1);
        assert(s.skip(1).subrange(i, s.skip(1).len() as int) =~= s.subrange(i + 1, s.len() as int));
    }
}

/// When `c` does not occur in `s`, `after_first` finds nothing.
pub proof fn lemma_after_first_none(s: Seq<char>, c: char)
    requires
        forall|j: int| 0 <= j < s.len() ==> s[j] != c,
    ensures
        after_first(s, c) is None,
    decreases s.len(),
{
    if s.len() > 0 {
        lemma_after_first_none(s.skip(1), c);
    }
}

/// `after_last` returns the suffix that follows the last occurrence of `c`.
pub proof fn lemma_after_last_at(s: Seq<char>, c: char, i: int)
    requires
        0 <= i < s.len(),
        s[i] == c,
        forall|j: int| i < j < s.len() ==> s[j] != c,
    ensures
        after_last(s, c) == s.subrange(i + 1, s.len() as int),
    decreases s.len(),
{
    if i == s.len() - 1 {
        assert(s.subrange(i + 1, s.len() as int) =~= Seq::<char>::empty());
    } else {
        lemma_after_last_at(s.drop_last(), c, i);
        assert(s.drop_last().subrange(i + 1, s.drop_last().len() as int).push(s.last()) =~= s
            .subrange(i + 1, s.len() as int));
    }
}

/// When `c` does not occur in `s`, `after_last` is `s` itself.
pub proof fn lemma_after_last_none(s: Seq<char>, c: char)
    requires
        forall|j: int| 0 <= j < s.len() ==> s[j] != c,
    ensures
        after_last(s, c) == s,
    decreases s.len(),
{
    if s.len() > 0 {
        lemma_after_last_none(s.drop_last(), c);
        assert(s.drop_last().push(s.last()) =~= s);
    }
}

/// The index of the first occurrence of `c` in `s`, if any.
pub fn find_first(s: &str, c: char) -> (r: Option<usize>)
    ensures
        match r {
            Some(i) => i < s@.len() && s@[i as int] == c && (forall|j: int|
                0 <= j < i ==> s@[j] != c),
            None => forall|j: int| 0 <= j < s@.len() ==> s@[j] != c,
        },
{
    let n = s.unicode_len();
    let mut i: usize = 0;
    while i < n
        invariant
            0 <= i <= n,
            n == s@.len(),
            forall|j: int| 0 <= j < i ==> s@[j] != c,
        decreases n - i,
    {
        if s.get_char(i) == c {
            return Some(i);
        }
        i = i + 1;
    }
    None
}

/// The index of the last occurrence of `c` in `s`, if any.
pub fn find_last(s: &str, c: char) -> (r: Option<usize>)
    ensures
        match r {
            Some(i) => i < s@.len() && s@[i as int] == c && (forall|j: int|
                i < j < s@.len() ==> s@[j] != c),
            None => forall|j: int| 0 <= j < s@.len() ==> s@[j] != c,
        },
{
    let n = s.unicode_len();
    let mut i: usize = n;
    while i > 0
        invariant
            0 <= i <= n,
            n == s@.len(),
            forall|j: int| i <= j < s@.len() ==> s@[j] != c,
        decreases i,
    {
        i = i - 1;
        if s.get_char(i) == c {
            return Some(i);
        }
    }
    None
}

/// The final path component of `p`, as `file_name_of` describes it.
pub fn file_name_str(p: &str) -> (r: Option<String>)
    ensures
        match r {
            Some(name) => file_name_of(p@) == Some(name@),
            None => file_name_of(p@) is None,
        },
{
    let n = p.unicode_len();
    let mut e: usize = n;
    proof {
        assert(p@.take(n as int) =~= p@);
    }
    loop
        invariant
            0 <= e <= n,
            n == p@.len(),
            file_name_of(p@) == file_name_of(p@.take(e as int)),
        decreases e,
    {
        let ghost e0 = e;
        // Ignore trailing separators.
        while e > 0 && p.get_char(e - 1) == '/'
            invariant
                0 <= e <= e0 <= n,
                n == p@.len(),
                file_name_of(p@) == file_name_of(p@.take(e as int)),
            decreases e,
        {
            proof {
                assert(p@.take(e as int).drop_last() =~= p@.take(e - 1));
            }
            e = e - 1;
        }
        if e == 0 {
            return None;
        }
        // Find the start of the last segment.
        let mut b: usize = e;
        while b > 0 && p.get_char(b - 1) != '/'
            invariant
                0 <= b <= e <= n,
                n == p@.len(),
                forall|j: int| b <= j < e ==> p@[j] != '/',
            decreases b,
        {
            b = b - 1;
        }
        proof {
            let t = p@.take(e as int);
            if b > 0 {
                lemma_after_last_at(t, '/', b - 1);
            } else {
                lemma_after_last_none(t, '/');
            }
            assert(after_last(t, '/') =~= p@.subrange(b as int, e as int));
        }
        let seglen = e - b;
        if seglen == 1 && p.get_char(b) == '.' {
            // A bare `.` component is skipped, separator included.
            proof {
                let t = p@.take(e as int);
                assert(after_last(t, '/') =~= seq!['.']);
                assert(t.take(t.len() - 1) =~= p@.take(b as int));
                assert(b < e);
            }
            e = b;
        } else if seglen == 2 && p.get_char(b) == '.' && p.get_char(b + 1) == '.' {
            proof {
                let t = p@.take(e as int);
                assert(after_last(t, '/') =~= seq!['.', '.']);
            }
            return None;
        } else {
            proof {
                let t = p@.take(e as int);
                let seg = after_last(t, '/');
                assert(seg.len() == e - b);
                assert forall|j: int| 0 <= j < seg.len() implies #[trigger] seg[j] == p@[b + j] by {
                    assert(p@.subrange(b as int, e as int)[j] == p@[b + j]);
                }
                if seg == seq!['.'] {
                    assert(seg[0] == '.');
                    assert(false);
                }
                if seg == seq!['.', '.'] {
                    assert(seg[0] == '.');
                    assert(seg[1] == '.');
                    assert(false);
                }
            }
            let name = p.substring_char(b, e);
            return Some(name.to_owned());
        }
    }
}

/// What the daemon-identity parser extracts from one command-line argument:
/// everything after the first `=`, then everything after the last newline,
/// then the final path component of what is left.
pub open spec fn spec_parse_socket_name(arg: Seq<char>) -> Option<Seq<char>> {
    match after_first(arg, '=') {
        Some(rhs) => file_name_of(after_last(rhs, '\n')),
        None => None,
    }
}

/// Extract the socket name embedded in one raw command-line argument.
pub fn parse_socket_name(arg: &str) -> (r: Option<String>)
    ensures
        match r {
            Some(name) => spec_parse_socket_name(arg@) == Some(name@),
            None => spec_parse_socket_name(arg@) is None,
        },
{
    let n = arg.unicode_len();
    match find_first(arg, '=') {
        None => {
            proof {
                lemma_after_first_none(arg@, '=');
            }
            None
        },
        Some(i) => {
            let rhs = arg.substring_char(i + 1, n);
            proof {
                lemma_after_first_at(arg@, '=', i as int);
            }
            let m = rhs.unicode_len();
            let tail = match find_last(rhs, '\n') {
                None => {
                    proof {
                        lemma_after_last_none(rhs@, '\n');
                    }
                    rhs
                },
                Some(k) => {
                    proof {
                        lemma_after_last_at(rhs@, '\n', k as int);
                    }
                    rhs.substring_char(k + 1, m)
                },
            };
            file_name_str(tail)
        },
    }
}

/// Whether `s` and `prefix` agree on the first `prefix.len()` characters.
pub fn starts_with_str(s: &str, prefix: &str) -> (b: bool)
    ensures
        b == spec_starts_with(s@, prefix@),
{
    let n = s.unicode_len();
    let m = prefix.unicode_len();
    if n < m {
        return false;
    }
    let mut i: usize = 0;
    while i < m
        invariant
            0 <= i <= m,
            m <= n,
            n == s@.len(),
            m == prefix@.len(),
            forall|j: int| 0 <= j < i ==> s@[j] == prefix@[j],
        decreases m - i,
    {
        if s.get_char(i) != prefix.get_char(i) {
            assert(s@.subrange(0, m as int) != prefix@) by {
                assert(s@.subrange(0, m as int)[i as int] != prefix@[i as int]);
            }
            return false;
        }
        i = i + 1;
    }
    assert(s@.subrange(0, m as int) =~= prefix@);
    true
}

/// What `str::to_lowercase` returns for a given character sequence.
pub uninterp spec fn lower_of(s: Seq<char>) -> Seq<char>;

/// Relies on str::to_lowercase: the Unicode lowercase equivalent of `s`, a
/// function of the characters alone.
#[verifier::external_body]
pub(crate) fn to_lowercase(s: &str) -> (r: String)
    ensures
        r@ == lower_of(s@),
{
    s.to_lowercase()
}

/// Whether two string slices hold the same characters.
pub fn str_eq(a: &str, b: &str) -> (r: bool)
    ensures
        r == (a@ == b@),
{
    let n = a.unicode_len();
    let m = b.unicode_len();
    if n != m {
        return false;
    }
    let r = starts_with_str(a, b);
    proof {
        assert(a@.subrange(0, b@.len() as int) =~= a@);
    }
    r
}

/// `after_last` never contains its separator.
pub proof fn lemma_after_last_excludes(s: Seq<char>, c: char)
    ensures
        !after_last(s, c).contains(c),
    decreases s.len(),
{
    if s.len() > 0 && s.last() != c {
        lemma_after_last_excludes(s.drop_last(), c);
    }
}

/// Every character of `after_last` comes from `s`.
pub proof fn lemma_after_last_subset(s: Seq<char>, c: char, x: char)
    requires
        after_last(s, c).contains(x),
    ensures
        s.contains(x),
    decreases s.len(),
{
    if s.len() > 0 && s.last() != c {
        let prev = after_last(s.drop_last(), c);
        if x != s.last() {
            assert(prev.contains(x)) by {
                let k = choose|k: int|
                    0 <= k < prev.push(s.last()).len() && prev.push(s.last())[k] == x;
                assert(prev[k] == x);
            }
            lemma_after_last_subset(s.drop_last(), c, x);
            let k = choose|k: int| 0 <= k < s.drop_last().len() && s.drop_last()[k] == x;
            assert(s[k] == x);
        }
    }
}

/// A final path component is non-empty and free of separators, and all of its
/// characters come from the path.
pub proof fn lemma_file_name_wf(p: Seq<char>)
    ensures
        match file_name_of(p) {
            Some(n) => n.len() > 0 && !n.contains('/') && (forall|x: char|
                #[trigger] n.contains(x) ==> p.contains(x)),
            None => true,
        },
    decreases p.len(),
{
    if p.len() == 0 {
    } else if p.last() == '/' {
        lemma_file_name_wf(p.drop_last());
        if file_name_of(p.drop_last()) is Some {
            let n = file_name_of(p.drop_last()).unwrap();
            assert forall|x: char| #[trigger] n.contains(x) implies p.contains(x) by {
                assert(p.drop_last().contains(x));
                let k = choose|k: int| 0 <= k < p.drop_last().len() && p.drop_last()[k] == x;
                assert(p[k] == x);
            }
        }
    } else {
        let seg = after_last(p, '/');
        if seg == seq!['.'] {
            lemma_file_name_wf(p.take(p.len() - 1));
            let q = p.take(p.len() - 1);
            if file_name_of(q) is Some {
                let n = file_name_of(q).unwrap();
                assert forall|x: char| #[trigger] n.contains(x) implies p.contains(x) by {
                    assert(q.contains(x));
                    let k = choose|k: int| 0 <= k < q.len() && q[k] == x;
                    assert(p[k] == x);
                }
            }
        } else if seg == seq!['.', '.'] {
        } else {
            lemma_after_last_excludes(p, '/');
            assert(seg.len() > 0);
            assert forall|x: char| #[trigger] seg.contains(x) implies p.contains(x) by {
                lemma_after_last_subset(p, '/', x);
            }
        }
    }
}

/// Join a directory and a relative name with a single separator.
pub fn join_path(dir: &str, name: &str) -> (r: String)
    ensures
        r@ == spec_join_path(dir@, name@),
{
    let n = dir.unicode_len();
    if n == 0 {
        name.to_owned()
    } else if dir.get_char(n - 1) == '/' {
        dir.to_owned().concat(name)
    } else {
        proof {
            reveal_strlit("/");
        }
        let mut out = dir.to_owned();
        out.append("/");
        out.append(name);
        proof {
            assert(dir@ + "/"@ + name@ =~= dir@ + seq!['/'] + name@);
        }
        out
    }
}

/// The character for one decimal digit.
pub open spec fn spec_digit_char(d: nat) -> char {
    if d == 0 {
        '0'
    } else if d == 1 {
        '1'
    } else if d == 2 {
        '2'
    } else if d == 3 {
        '3'
    } else if d == 4 {
        '4'
    } else if d == 5 {
        '5'
    } else if d == 6 {
        '6'
    } else if d == 7 {
        '7'
    } else if d == 8 {
        '8'
    } else {
        '9'
    }
}

/// The decimal rendering of `n`, most significant digit first, no leading
/// zeros (a single `0` for zero).
pub open spec fn spec_dec_chars(n: nat) -> Seq<char>
    decreases n,
{
    if n < 10 {
        seq![spec_digit_char(n)]
    } else {
        spec_dec_chars(n / 10).push(spec_digit_char(n % 10))
    }
}

/// The decimal digits `ds` (least significant first) read back most
/// significant first, as characters.
pub open spec fn rev_digit_chars(ds: Seq<u32>) -> Seq<char> {
    Seq::new(ds.len(), |k: int| spec_digit_char(ds[ds.len() - 1 - k] as nat))
}

/// One decimal digit as a string slice.
fn digit_str(d: u32) -> (r: &'static str)
    requires
        d < 10,
    ensures
        r@ == seq![spec_digit_char(d as nat)],
{
    proof {
        reveal_strlit("0");
        reveal_strlit("1");
        reveal_strlit("2");
        reveal_strlit("3");
        reveal_strlit("4");
        reveal_strlit("5");
        reveal_strlit("6");
        reveal_strlit("7");
        reveal_strlit("8");
        reveal_strlit("9");
    }
    if d == 0 {
        "0"
    } else if d == 1 {
        "1"
    } else if d == 2 {
        "2"
    } else if d == 3 {
        "3"
    } else if d == 4 {
        "4"
    } else if d == 5 {
        "5"
    } else if d == 6 {
        "6"
    } else if d == 7 {
        "7"
    } else if d == 8 {
        "8"
    } else {
        "9"
    }
}

/// Render `v` in decimal.
pub fn u32_to_string(v: u32) -> (r: String)
    ensures
        r@ == spec_dec_chars(v as nat),
{
    let mut digits: Vec<u32> = Vec::new();
    let mut x = v;
    digits.push(x % 10);
    x = x / 10;
    proof {
        if x > 0 {
            assert(spec_dec_chars(v as nat) =~= spec_dec_chars(x as nat) + rev_digit_chars(
                digits@,
            ));
        } else {
            assert(spec_dec_chars(v as nat) =~= rev_digit_chars(digits@));
        }
    }
    while x > 0
        invariant
            digits@.len() >= 1,
            forall|j: int| 0 <= j < digits@.len() ==> digits@[j] < 10,
            x > 0 ==> spec_dec_chars(v as nat) == spec_dec_chars(x as nat) + rev_digit_chars(
                digits@,
            ),
            x == 0 ==> spec_dec_chars(v as nat) == rev_digit_chars(digits@),
        decreases x,
    {
        let ghost old_digits = digits@;
        let ghost old_x = x;
        digits.push(x % 10);
        x = x / 10;
        proof {
            assert(rev_digit_chars(old_digits.push(old_x % 10)) =~= seq![
                spec_digit_char((old_x % 10) as nat),
            ] + rev_digit_chars(old_digits));
            if x > 0 {
                assert(spec_dec_chars(old_x as nat) == spec_dec_chars(x as nat).push(
                    spec_digit_char((old_x % 10) as nat),
                ));
                assert(spec_dec_chars(x as nat).push(spec_digit_char((old_x % 10) as nat))
                    + rev_digit_chars(old_digits) =~= spec_dec_chars(x as nat) + rev_digit_chars(
                    old_digits.push(old_x % 10),
                ));
            } else {
                assert(spec_dec_chars(old_x as nat) =~= seq![
                    spec_digit_char((old_x % 10) as nat),
                ]);
                assert(spec_dec_chars(old_x as nat) + rev_digit_chars(old_digits)
                    =~= rev_digit_chars(old_digits.push(old_x % 10)));
            }
        }
    }
    let mut out = String::new();
    let n = digits.len();
    let mut i: usize = n;
    while i > 0
        invariant
            0 <= i <= n,
            n == digits@.len(),
            forall|j: int| 0 <= j < digits@.len() ==> digits@[j] < 10,
            spec_dec_chars(v as nat) == rev_digit_chars(digits@),
            out@ =~= rev_digit_chars(digits@).take(n - i),
        decreases i,
    {
        i = i - 1;
        let d = digits[i];
        out.append(digit_str(d));
        proof {
            assert(out@ =~= rev_digit_chars(digits@).take(n - i));
        }
    }
    proof {
        assert(rev_digit_chars(digits@).take(n as int) =~= rev_digit_chars(digits@));
    }
    out
}

/// A run of `k` spaces.
pub open spec fn spec_spaces(k: nat) -> Seq<char> {
    Seq::new(k, |i: int| ' ')
}

/// `s` padded on the right with spaces to width `w` (unchanged when already
/// that wide).
pub open spec fn spec_pad_right(s: Seq<char>, w: nat) -> Seq<char> {
    if s.len() >= w {
        s
    } else {
        s + spec_spaces((w - s.len()) as nat)
    }
}

/// `s` padded on the left with spaces to width `w`.
pub open spec fn spec_pad_left(s: Seq<char>, w: nat) -> Seq<char> {
    if s.len() >= w {
        s
    } else {
        spec_spaces((w - s.len()) as nat) + s
    }
}

/// Left-align `s` in a field of `w` characters.
pub fn pad_right(s: &str, w: usize) -> (r: String)
    ensures
        r@ == spec_pad_right(s@, w as nat),
{
    proof {
        reveal_strlit(" ");
    }
    let n = s.unicode_len();
    let mut out = s.to_owned();
    let mut k: usize = n;
    while k < w
        invariant
            n == s@.len(),
            n <= k,
            k <= w || k == n,
            out@ =~= s@ + spec_spaces((k - n) as nat),
        decreases w - k,
    {
        out.append(" ");
        k = k + 1;
        proof {
            reveal_strlit(" ");
            assert(out@ =~= s@ + spec_spaces((k - n) as nat));
        }
    }
    proof {
        if n >= w {
            assert(out@ =~= s@);
        }
    }
    out
}

/// Right-align `s` in a field of `w` characters.
pub fn pad_left(s: &str, w: usize) -> (r: String)
    ensures
        r@ == spec_pad_left(s@, w as nat),
{
    proof {
        reveal_strlit(" ");
    }
    let n = s.unicode_len();
    let mut out = String::new();
    let mut k: usize = 0;
    while n + k < w
        invariant
            n == s@.len(),
            n + k <= w || k == 0,
            out@ =~= spec_spaces(k as nat),
        decreases w - n - k,
    {
        out.append(" ");
        k = k + 1;
        proof {
            reveal_strlit(" ");
            assert(out@ =~= spec_spaces(k as nat));
        }
    }
    let r = out.concat(s);
    proof {
        if n >= w {
            assert(r@ =~= s@);
        }
    }
    r
}

/// Whether `needle` occurs contiguously in `hay`.
pub fn contains_substr(hay: &str, needle: &str) -> (b: bool)
    ensures
        b == spec_contains_substr(hay@, needle@),
{
    let n = hay.unicode_len();
    let m = needle.unicode_len();
    if m > n {
        assert(!spec_contains_substr(hay@, needle@));
        return false;
    }
    if m == 0 {
        assert(spec_contains_substr(hay@, needle@)) by {
            assert(hay@.subrange(0, 0 + needle@.len() as int) =~= needle@);
        }
        return true;
    }
    let mut i: usize = 0;
    while i <= n - m
        invariant
            0 <= i <= n - m + 1,
            1 <= m <= n,
            n == hay@.len(),
            m == needle@.len(),
            forall|k: int|
                0 <= k < i ==> #[trigger] hay@.subrange(k, k + needle@.len()) != needle@,
        decreases n - m + 1 - i,
    {
        if match_at(hay, needle, i) {
            return true;
        }
        i = i + 1;
    }
    assert forall|k: int| 0 <= k && k + needle@.len() <= hay@.len() implies #[trigger] hay@
        .subrange(k, k + needle@.len()) != needle@ by {
        assert(k < i);
    }
    false
}

/// Whether `needle` occurs in `hay` starting exactly at index `at`.
fn match_at(hay: &str, needle: &str, at: usize) -> (b: bool)
    requires
        at + needle@.len() <= hay@.len(),
    ensures
        b == (hay@.subrange(at as int, at + needle@.len()) == needle@),
{
    let n = hay.unicode_len();
    let m = needle.unicode_len();
    let mut j: usize = 0;
    while j < m
        invariant
            0 <= j <= m,
            n == hay@.len(),
            m == needle@.len(),
            at + m <= n,
            forall|k: int| 0 <= k < j ==> hay@[at + k] == needle@[k],
        decreases m - j,
    {
        if hay.get_char(at + j) != needle.get_char(j) {
            assert(hay@.subrange(at as int, at + needle@.len()) != needle@) by {
                assert(hay@.subrange(at as int, at + needle@.len())[j as int] != needle@[j as int]);
            }
            return false;
        }
        j = j + 1;
    }
    assert(hay@.subrange(at as int, at + needle@.len()) =~= needle@);
    true
}

} // verus!
