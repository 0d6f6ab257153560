//! Character-level helpers shared by the table model and the SQL generator:
//! sheet-name sanitizing, ASCII lower-casing, file-stem extraction, and
//! decimal rendering of integers.

use vstd::prelude::*;

verus! {

/// Relies on `String::push`: appends exactly the given character.
#[verifier::external_body]
pub(crate) fn push_char(s: &mut String, c: char)
    ensures
        final(s)@ == old(s)@.push(c),
{
    s.push(c);
}

/// A character survives sheet-name sanitizing when it is ASCII and is not a
/// parenthesis.
pub open spec fn keeps_in_name(c: char) -> bool {
    (c as u32) < 128 && c != '(' && c != ')'
}

/// The sanitized form of a sheet name: the characters that pass
/// [`keeps_in_name`], in their original order.
pub open spec fn sanitize_spec(s: Seq<char>) -> Seq<char>
    decreases s.len(),
{
    if s.len() == 0 {
        Seq::empty()
    } else if keeps_in_name(s.last()) {
        sanitize_spec(s.drop_last()).push(s.last())
    } else {
        sanitize_spec(s.drop_last())
    }
}

/// Sanitizes a sheet name into a table identifier: non-ASCII characters and
/// literal parentheses are removed, everything else is kept unchanged.
pub fn sanitize_table_name(name: &str) -> (r: String)
    ensures
        r@ == sanitize_spec(name@),
{
    let len: usize = name.unicode_len();
    let mut r = String::new();
    let mut i: usize = 0;
    while i < len
        invariant
            i <= len,
            len == name@.len(),
            r@ == sanitize_spec(name@.take(i as int)),
        decreases len - i,
    {
        let c = name.get_char(i);
        if (c as u32) < 128 && c != '(' && c != ')' {
            push_char(&mut r, c);
        }
        proof {
            assert(name@.take(i + 1 as int).drop_last() =~= name@.take(i as int));
            assert(name@.take(i + 1 as int).last() == name@[i as int]);
        }
        i = i + 1;
    }
    proof {
        assert(name@.take(len as int) =~= name@);
    }
    r
}

/// The ASCII lower-case form of a character: `'A'..='Z'` move down into
/// `'a'..='z'`, every other character is unchanged.
pub open spec fn lower_char(c: char) -> char {
    if 65 <= (c as u32) && (c as u32) <= 90 {
        (((c as u32) + 32) as u8) as char
    } else {
        c
    }
}

/// The ASCII lower-case form of a string, character by character.
pub open spec fn lower_spec(s: Seq<char>) -> Seq<char> {
    Seq::new(s.len(), |i: int| lower_char(s[i]))
}

/// Lower-cases the ASCII letters of a string; all other characters are kept.
pub fn lower_ascii(s: &str) -> (r: String)
    ensures
        r@ == lower_spec(s@),
{
    let len: usize = s.unicode_len();
    let mut r = String::new();
    let mut i: usize = 0;
    while i < len
        invariant
            i <= len,
            len == s@.len(),
            r@ =~= Seq::new(i as nat, |j: int| lower_char(s@[j])),
        decreases len - i,
    {
        let c = s.get_char(i);
        let u = c as u32;
        if 65 <= u && u <= 90 {
            push_char(&mut r, ((u + 32) as u8) as char);
        } else {
            push_char(&mut r, c);
        }
        i = i + 1;
    }
    proof {
        assert(r@ =~= lower_spec(s@));
    }
    r
}

/// The suffix of `s` that follows the last occurrence of `c`; the whole of
/// `s` when `c` does not occur.
pub open spec fn after_last(s: Seq<char>, c: char) -> Seq<char>
    decreases s.len(),
{
    if s.len() == 0 {
        s
    } else if s.last() == c {
        Seq::<char>::empty()
    } else {
        after_last(s.drop_last(), c).push(s.last())
    }
}

proof fn lemma_after_last_suffix(s: Seq<char>, c: char, k: int)
    requires
        -1 <= k < s.len(),
        k >= 0 ==> s[k] == c,
        forall|j: int| k < j < s.len() ==> s[j] != c,
    ensures
        after_last(s, c) == s.subrange(k + 1, s.len() as int),
    decreases s.len(),
{
    if s.len() == 0 {
        assert(after_last(s, c) =~= s.subrange(k + 1, s.len() as int));
    } else if k == s.len() - 1 {
        assert(after_last(s, c) =~= s.subrange(k + 1, s.len() as int));
    } else {
        lemma_after_last_suffix(s.drop_last(), c, k);
        assert(after_last(s, c) =~= s.subrange(k + 1, s.len() as int));
    }
}

/// The file name of a path: what follows the last `/` separator.
pub open spec fn file_name_spec(path: Seq<char>) -> Seq<char> {
    after_last(path, '/')
}

/// The stem of a path: its file name with the extension removed. The
/// extension is what follows the last `.` of the file name, and only counts
/// as one when that `.` has at least one character before it, so a name that
/// is nothing but a leading `.` plus letters keeps all its characters.
pub open spec fn stem_spec(path: Seq<char>) -> Seq<char> {
    let n = file_name_spec(path);
    let e = after_last(n, '.');
    if e.len() == n.len() {
        n
    } else {
        let d = n.len() - e.len() - 1;
        if d == 0 {
            n
        } else {
            n.take(d as int)
        }
    }
}

/// Extracts the file stem of a path: the part after the last `/`, with the
/// extension after the last `.` stripped. An empty or root path has the
/// empty string as its stem.
pub fn file_stem_of(path: &str) -> (r: &str)
    ensures
        r@ == stem_spec(path@),
{
    let len: usize = path.unicode_len();
    let mut i: usize = 0;
    let mut start: usize = 0;
    while i < len
        invariant
            i <= len,
            len == path@.len(),
            start <= i,
            start >= 1 ==> path@[start - 1] == '/',
            forall|j: int| start <= j < i ==> path@[j] != '/',
        decreases len - i,
    {
        if path.get_char(i) == '/' {
            start = i + 1;
        }
        i = i + 1;
    }
    proof {
        lemma_after_last_suffix(path@, '/', start - 1);
    }
    let ghost n = file_name_spec(path@);
    assert(n == path@.subrange(start as int, len as int));

    // Search the file name for its last `.`.
    let mut k: usize = start;
    let mut dot: usize = start;  // `start` doubles as "no dot found yet"
    let mut found: bool = false;
    while k < len
        invariant
            start <= k <= len,
            len == path@.len(),
            n == path@.subrange(start as int, len as int),
            found ==> start <= dot < k && path@[dot as int] == '.',
            forall|j: int| dot < j < k ==> path@[j] != '.',
            !found ==> dot == start && (forall|j: int| start <= j < k ==> path@[j] != '.'),
        decreases len - k,
    {
        if path.get_char(k) == '.' {
            dot = k;
            found = true;
        }
        k = k + 1;
    }
    proof {
        if found {
            lemma_after_last_suffix(n, '.', dot - start);
            assert(after_last(n, '.') =~= path@.subrange(dot + 1, len as int));
        } else {
            lemma_after_last_suffix(n, '.', -1);
            assert(after_last(n, '.') =~= n);
        }
    }
    let end: usize = if found && dot > start {
        dot
    } else {
        len
    };
    let r = path.substring_char(start, end);
    proof {
        assert(r@ =~= stem_spec(path@));
    }
    r
}

/// The decimal digit character for a value below ten.
pub open spec fn dec_digit(d: int) -> char
    recommends
        0 <= d < 10,
{
    if d == 0 {
        '0'
    } else if d == 1 {
        '1'
    } else if d == 2 {
        '2'
    } else if d == 3 {
        '3'
    } else if d == 4 {
        '4'
    } else if d == 5 {
        '5'
    } else if d == 6 {
        '6'
    } else if d == 7 {
        '7'
    } else if d == 8 {
        '8'
    } else {
        '9'
    }
}

/// The decimal rendering of a non-negative integer, most significant digit
/// first, with no leading zeros (a single `'0'` for zero).
pub open spec fn dec_nat(n: int) -> Seq<char>
    recommends
        n >= 0,
    decreases n,
{
    if n < 10 {
        seq![dec_digit(n)]
    } else {
        dec_nat(n / 10).push(dec_digit(n % 10))
    }
}

/// The decimal rendering of an integer: a leading `'-'` for negative values.
pub open spec fn dec_int(v: int) -> Seq<char> {
    if v < 0 {
        seq!['-'] + dec_nat(-v)
    } else {
        dec_nat(v)
    }
}

fn digit_char(d: u64) -> (c: char)
    requires
        d < 10,
    ensures
        c == dec_digit(d as int),
{
    if d == 0 {
        '0'
    } else if d == 1 {
        '1'
    } else if d == 2 {
        '2'
    } else if d == 3 {
        '3'
    } else if d == 4 {
        '4'
    } else if d == 5 {
        '5'
    } else if d == 6 {
        '6'
    } else if d == 7 {
        '7'
    } else if d == 8 {
        '8'
    } else {
        '9'
    }
}

fn push_dec_u64(s: &mut String, n: u64)
    ensures
        final(s)@ == old(s)@ + dec_nat(n as int),
    decreases n,
{
    if n < 10 {
        push_char(s, digit_char(n));
        proof {
            assert(old(s)@ + dec_nat(n as int) =~= old(s)@.push(dec_digit(n as int)));
        }
    } else {
        push_dec_u64(s, n / 10);
        push_char(s, digit_char(n % 10));
        proof {
            assert(old(s)@ + dec_nat(n as int) =~= (old(s)@ + dec_nat(n as int / 10)).push(
                dec_digit(n as int % 10),
            ));
        }
    }
}

/// Renders a signed integer as its decimal literal.
pub fn i64_to_string(v: i64) -> (r: String)
    ensures
        r@ == dec_int(v as int),
{
    let mut r = String::new();
    if v >= 0 {
        push_dec_u64(&mut r, v as u64);
    } else {
        push_char(&mut r, '-');
        let mag: u64 = if v == i64::MIN {
            9223372036854775808u64
        } else {
            (-v) as u64
        };
        assert(mag as int == -(v as int));
        push_dec_u64(&mut r, mag);
        proof {
            assert(Seq::<char>::empty().push('-') + dec_nat(mag as int) =~= seq!['-'] + dec_nat(
                -(v as int),
            ));
        }
    }
    r
}

} // verus!
