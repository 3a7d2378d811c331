//! Small text utilities shared by the labels, paths and messages of the
//! library: decimal rendering, character-level slicing, repetition.

use vstd::prelude::*;

verus! {

/// The character of a decimal digit `d < 10`.
pub open spec fn digit_char(d: nat) -> char {
    (48 + d) as char
}

/// Decimal rendering of `n`, without leading zeros (`0` renders as "0").
pub open spec fn decimal(n: nat) -> Seq<char>
    decreases n,
{
    if n < 10 {
        seq![digit_char(n)]
    } else {
        decimal(n / 10).push(digit_char(n % 10))
    }
}

/// Decimal rendering of `n` padded with zeros to at least two digits.
pub open spec fn decimal2(n: nat) -> Seq<char> {
    if n < 10 {
        seq!['0', digit_char(n)]
    } else {
        decimal(n)
    }
}

/// `s` repeated `n` times.
pub open spec fn repeat_seq(s: Seq<char>, n: nat) -> Seq<char>
    decreases n,
{
    if n == 0 {
        Seq::empty()
    } else {
        repeat_seq(s, (n - 1) as nat) + s
    }
}

/// The first `n` characters of `s` (all of `s` if it is shorter).
pub open spec fn take_chars(s: Seq<char>, n: nat) -> Seq<char> {
    if s.len() <= n {
        s
    } else {
        s.subrange(0, n as int)
    }
}

/// `String::push`: appends one character.
#[verifier::external_body]
pub(crate) fn push_char(s: &mut String, c: char)
    ensures
        final(s)@ == old(s)@.push(c),
{
    s.push(c)
}

/// The characters of `s`, in order.
pub(crate) fn chars_of(s: &str) -> (r: Vec<char>)
    ensures
        r@ == s@,
{
    broadcast use vstd::string::axiom_spec_iter;
    let mut out: Vec<char> = Vec::new();
    for c in it: s.chars()
        invariant
            it.seq() == s@,
            out@ == it.seq().take(it.index() as int),
    {
        out.push(c);
    }
    out
}

/// The string made of the characters in `chars`, in order.
pub fn string_from_chars(chars: &Vec<char>) -> (r: String)
    ensures
        r@ == chars@,
{
    let mut out = String::new();
    let mut i: usize = 0;
    while i < chars.len()
        invariant
            i <= chars.len(),
            out@ == chars@.subrange(0, i as int),
        decreases chars.len() - i,
    {
        push_char(&mut out, chars[i]);
        i = i + 1;
    }
    proof {
        assert(chars@.subrange(0, chars.len() as int) =~= chars@);
    }
    out
}

fn digit_of(d: u64) -> (c: char)
    requires
        d < 10,
    ensures
        c == digit_char(d as nat),
{
    let b: u8 = 48 + (d as u8);
    b as char
}

/// Appends the decimal rendering of `n` to `out`.
pub fn push_decimal(out: &mut String, n: u64)
    ensures
        final(out)@ == old(out)@ + decimal(n as nat),
    decreases n,
{
    if n >= 10 {
        push_decimal(out, n / 10);
    }
    let c = digit_of(n % 10);
    push_char(out, c);
    proof {
        assert(final(out)@ =~= old(out)@ + decimal(n as nat));
    }
}

/// Decimal rendering of `n`.
pub fn decimal_string(n: u64) -> (r: String)
    ensures
        r@ == decimal(n as nat),
{
    let mut s = String::new();
    push_decimal(&mut s, n);
    proof {
        assert(s@ =~= decimal(n as nat));
    }
    s
}

/// Decimal rendering of `n`, zero-padded to two digits.
pub fn decimal2_string(n: u64) -> (r: String)
    ensures
        r@ == decimal2(n as nat),
{
    let mut s = String::new();
    if n < 10 {
        push_char(&mut s, '0');
        let c = digit_of(n);
        push_char(&mut s, c);
        proof {
            assert(s@ =~= decimal2(n as nat));
        }
        s
    } else {
        decimal_string(n)
    }
}

/// `s` repeated `n` times.
pub fn repeat_str(s: &str, n: usize) -> (r: String)
    ensures
        r@ == repeat_seq(s@, n as nat),
{
    let mut out = String::new();
    let mut i: usize = 0;
    while i < n
        invariant
            i <= n,
            out@ == repeat_seq(s@, i as nat),
        decreases n - i,
    {
        out.append(s);
        i = i + 1;
    }
    out
}

/// The first `n` characters of `s`.
pub fn take_chars_string(s: &str, n: usize) -> (r: String)
    ensures
        r@ == take_chars(s@, n as nat),
{
    let cs = chars_of(s);
    let mut out = String::new();
    let mut i: usize = 0;
    while i < cs.len() && i < n
        invariant
            i <= cs.len(),
            i <= n,
            cs@ == s@,
            out@ == s@.subrange(0, i as int),
        decreases n - i,
    {
        push_char(&mut out, cs[i]);
        i = i + 1;
    }
    proof {
        if s@.len() <= n {
            assert(s@.subrange(0, s@.len() as int) =~= s@);
        }
    }
    out
}

/// Whether two character sequences are equal, compared character by
/// character.
pub fn chars_equal(a: &Vec<char>, b: &Vec<char>) -> (r: bool)
    ensures
        r == (a@ == b@),
{
    if a.len() != b.len() {
        return false;
    }
    let mut i: usize = 0;
    while i < a.len()
        invariant
            a.len() == b.len(),
            i <= a.len(),
            forall|j: int| 0 <= j < i ==> a@[j] == b@[j],
        decreases a.len() - i,
    {
        if a[i] != b[i] {
            return false;
        }
        i = i + 1;
    }
    proof {
        assert(a@ =~= b@);
    }
    true
}

/// Whether two strings hold the same characters.
pub fn str_equal(a: &str, b: &str) -> (r: bool)
    ensures
        r == (a@ == b@),
{
    let ca = chars_of(a);
    let cb = chars_of(b);
    chars_equal(&ca, &cb)
}


/// The fields of `s` separated by `sep`, as `str::split` yields them
/// (empty fields included; an empty `s` has one empty field).
pub open spec fn split_fields(s: Seq<char>, sep: char) -> Seq<Seq<char>>
    decreases s.len(),
{
    if s.len() == 0 {
        seq![Seq::<char>::empty()]
    } else if s.last() == sep {
        split_fields(s.drop_last(), sep).push(Seq::<char>::empty())
    } else {
        let f = split_fields(s.drop_last(), sep);
        f.update(f.len() - 1, f.last().push(s.last()))
    }
}

/// `fields` without its empty members, order kept.
pub open spec fn drop_empty(fields: Seq<Seq<char>>) -> Seq<Seq<char>>
    decreases fields.len(),
{
    if fields.len() == 0 {
        fields
    } else if fields.last().len() == 0 {
        drop_empty(fields.drop_last())
    } else {
        drop_empty(fields.drop_last()).push(fields.last())
    }
}

/// The non-empty fields of `s` separated by `sep`.
pub open spec fn split_nonempty(s: Seq<char>, sep: char) -> Seq<Seq<char>> {
    drop_empty(split_fields(s, sep))
}

proof fn lemma_split_fields_nonempty(s: Seq<char>, sep: char)
    ensures
        split_fields(s, sep).len() >= 1,
    decreases s.len(),
{
    if s.len() > 0 {
        lemma_split_fields_nonempty(s.drop_last(), sep);
    }
}

proof fn lemma_drop_empty_push(fields: Seq<Seq<char>>, f: Seq<char>)
    ensures
        drop_empty(fields.push(f)) == (if f.len() == 0 { drop_empty(fields) } else { drop_empty(fields).push(f) }),
{
    assert(fields.push(f).drop_last() =~= fields);
}

/// The non-empty `sep`-separated fields of `s`, in order.
pub fn split_nonempty_strings(s: &str, sep: char) -> (r: Vec<String>)
    ensures
        r.deep_view() == split_nonempty(s@, sep),
{
    let cs = chars_of(s);
    let mut done: Vec<String> = Vec::new();
    let mut cur: Vec<char> = Vec::new();
    let mut i: usize = 0;
    proof {
        assert(s@.subrange(0, 0) =~= Seq::<char>::empty());
        assert(done.deep_view() =~= Seq::<Seq<char>>::empty());
    }
    while i < cs.len()
        invariant
            i <= cs.len(),
            cs@ == s@,
            split_fields(s@.subrange(0, i as int), sep).len() >= 1,
            done.deep_view() == drop_empty(split_fields(s@.subrange(0, i as int), sep).drop_last()),
            cur@ == split_fields(s@.subrange(0, i as int), sep).last(),
        decreases cs.len() - i,
    {
        let ghost pre = s@.subrange(0, i as int);
        let ghost post = s@.subrange(0, i as int + 1);
        let ghost f = split_fields(pre, sep);
        proof {
            assert(post.drop_last() =~= pre);
            assert(post.last() == s@[i as int]);
            lemma_split_fields_nonempty(post, sep);
        }
        let ch = cs[i];
        if ch == sep {
            proof {
                assert(split_fields(post, sep) == f.push(Seq::<char>::empty()));
                assert(split_fields(post, sep).drop_last() =~= f);
                assert(f =~= f.drop_last().push(f.last()));
                lemma_drop_empty_push(f.drop_last(), f.last());
            }
            if cur.len() > 0 {
                let ghost before = done.deep_view();
                let word = crate::text::string_from_chars(&cur);
                done.push(word);
                proof {
                    assert(done.deep_view() =~= before.push(cur@));
                }
            }
            cur = Vec::new();
        } else {
            cur.push(ch);
            proof {
                assert(split_fields(post, sep) == f.update(f.len() - 1, f.last().push(ch)));
                assert(split_fields(post, sep).drop_last() =~= f.drop_last());
            }
        }
        i = i + 1;
    }
    proof {
        assert(s@.subrange(0, cs.len() as int) =~= s@);
        let f = split_fields(s@, sep);
        assert(f =~= f.drop_last().push(f.last()));
        lemma_drop_empty_push(f.drop_last(), f.last());
    }
    if cur.len() > 0 {
        let ghost before = done.deep_view();
        let word = crate::text::string_from_chars(&cur);
        done.push(word);
        proof {
            assert(done.deep_view() =~= before.push(cur@));
        }
    }
    done
}

/// ASCII lowercase of one character; other characters are unchanged.
pub open spec fn ascii_lower(c: char) -> char {
    if 'A' <= c && c <= 'Z' {
        ((c as int) + 32) as char
    } else {
        c
    }
}

/// ASCII case-insensitive equality (`str::eq_ignore_ascii_case`): same
/// length, and each pair of characters equal once ASCII letters are
/// lowercased.
pub open spec fn eq_ignore_ascii_case(a: Seq<char>, b: Seq<char>) -> bool {
    a.len() == b.len() && forall|i: int| 0 <= i < a.len() ==> ascii_lower(a[i]) == ascii_lower(b[i])
}

fn ascii_lower_exec(c: char) -> (r: char)
    ensures
        r == ascii_lower(c),
{
    if 'A' <= c && c <= 'Z' {
        let v: u32 = (c as u32) + 32;
        let b: u8 = v as u8;
        b as char
    } else {
        c
    }
}

/// `a.eq_ignore_ascii_case(b)`.
pub fn eq_ignore_ascii_case_str(a: &str, b: &str) -> (r: bool)
    ensures
        r == eq_ignore_ascii_case(a@, b@),
{
    let ca = chars_of(a);
    let cb = chars_of(b);
    if ca.len() != cb.len() {
        return false;
    }
    let mut i: usize = 0;
    while i < ca.len()
        invariant
            ca@ == a@,
            cb@ == b@,
            ca.len() == cb.len(),
            i <= ca.len(),
            forall|j: int| 0 <= j < i ==> ascii_lower(a@[j]) == ascii_lower(b@[j]),
        decreases ca.len() - i,
    {
        if ascii_lower_exec(ca[i]) != ascii_lower_exec(cb[i]) {
            return false;
        }
        i = i + 1;
    }
    true
}

/// Index of the first `'\n'` in `s`, or its length when there is none.
pub open spec fn newline_index(s: Seq<char>) -> nat
    decreases s.len(),
{
    if s.len() == 0 {
        0
    } else if s[0] == '\n' {
        0
    } else {
        1 + newline_index(s.drop_first())
    }
}

/// The first line of `s` as `str::lines` yields it: the text before the
/// first `'\n'`, without a `'\r'` that ends it; all of `s` when there is no
/// `'\n'`. (An empty `s` has no lines; its first line is taken as empty.)
pub open spec fn first_line(s: Seq<char>) -> Seq<char> {
    let k = newline_index(s);
    let head = s.take(k as int);
    if k < s.len() && head.len() > 0 && head.last() == '\r' {
        head.drop_last()
    } else {
        head
    }
}

proof fn lemma_newline_index(s: Seq<char>, i: int)
    requires
        0 <= i <= s.len(),
        forall|j: int| 0 <= j < i ==> s[j] != '\n',
    ensures
        newline_index(s) >= i,
        newline_index(s) <= s.len(),
        i < s.len() && s[i] == '\n' ==> newline_index(s) == i,
        i == s.len() ==> newline_index(s) == s.len(),
    decreases i,
{
    if i > 0 {
        let t = s.drop_first();
        assert forall|j: int| 0 <= j < i - 1 implies t[j] != '\n' by {
            assert(t[j] == s[j + 1]);
        }
        lemma_newline_index(t, i - 1);
    } else {
        lemma_newline_index_bound(s);
    }
}

proof fn lemma_newline_index_bound(s: Seq<char>)
    ensures
        newline_index(s) <= s.len(),
        newline_index(s) < s.len() ==> s[newline_index(s) as int] == '\n',
    decreases s.len(),
{
    if s.len() > 0 && s[0] != '\n' {
        lemma_newline_index_bound(s.drop_first());
    }
}

/// The first line of `s` (see [`first_line`]).
pub fn first_line_string(s: &str) -> (r: String)
    ensures
        r@ == first_line(s@),
{
    let cs = chars_of(s);
    let mut k: usize = 0;
    while k < cs.len() && cs[k] != '\n'
        invariant
            k <= cs.len(),
            cs@ == s@,
            forall|j: int| 0 <= j < k ==> s@[j] != '\n',
        decreases cs.len() - k,
    {
        k = k + 1;
    }
    proof {
        lemma_newline_index(s@, k as int);
    }
    let mut end = k;
    if k < cs.len() && k > 0 && cs[k - 1] == '\r' {
        end = k - 1;
    }
    let mut out = String::new();
    let mut i: usize = 0;
    while i < end
        invariant
            i <= end,
            end <= cs@.len(),
            cs@ == s@,
            out@ == s@.subrange(0, i as int),
        decreases end - i,
    {
        push_char(&mut out, cs[i]);
        i = i + 1;
    }
    proof {
        let head = s@.take(k as int);
        if k < cs.len() && k > 0 && s@[k - 1] == '\r' {
            assert(out@ =~= head.drop_last());
        } else {
            assert(out@ =~= head);
        }
    }
    out
}

} // verus!
