//! Text as sequences of characters.
//!
//! A `str` or a `String` is modelled by the sequence of characters that it
//! holds. The functions here are the operations on text that the rest of the
//! crate is written in, each with a contract over those sequences.

use vstd::prelude::*;
use vstd::string::*;
use vstd::utf8::{
    char_is_scalar, encode_scalar, encode_utf8, encode_utf8_decode_utf8, encode_utf8_first_scalar,
    encode_utf8_valid_utf8, is_char_boundary, pop_first_scalar,
};

use crate::views::{opt_view, views};

verus! {

/// `String::push` appends one character.
pub assume_specification[ String::push ](s: &mut String, c: char)
    ensures
        final(s)@ == old(s)@.push(c),
;

/// Whether a character has the Unicode `White_Space` property.
pub open spec fn is_white_space(c: char) -> bool {
    let u = c as u32;
    ||| 0x9 <= u <= 0xd
    ||| u == 0x20
    ||| u == 0x85
    ||| u == 0xa0
    ||| u == 0x1680
    ||| 0x2000 <= u <= 0x200a
    ||| u == 0x2028
    ||| u == 0x2029
    ||| u == 0x202f
    ||| u == 0x205f
    ||| u == 0x3000
}

/// Whether `c` is white space.
pub fn white_space(c: char) -> (r: bool)
    ensures
        r == is_white_space(c),
{
    let u: u32 = c as u32;
    (0x9 <= u && u <= 0xd) || u == 0x20 || u == 0x85 || u == 0xa0 || u == 0x1680 || (0x2000 <= u
        && u <= 0x200a) || u == 0x2028 || u == 0x2029 || u == 0x202f || u == 0x205f || u == 0x3000
}

/// `s` without its leading white space.
pub open spec fn trim_start(s: Seq<char>) -> Seq<char>
    decreases s.len(),
{
    if s.len() > 0 && is_white_space(s.first()) {
        trim_start(s.drop_first())
    } else {
        s
    }
}

/// `s` without its trailing white space.
pub open spec fn trim_end(s: Seq<char>) -> Seq<char>
    decreases s.len(),
{
    if s.len() > 0 && is_white_space(s.last()) {
        trim_end(s.drop_last())
    } else {
        s
    }
}

/// `s` without white space at either end.
pub open spec fn trim(s: Seq<char>) -> Seq<char> {
    trim_end(trim_start(s))
}

/// Whether `s` holds nothing but white space.
pub open spec fn is_blank(s: Seq<char>) -> bool {
    forall|i: int| 0 <= i < s.len() ==> is_white_space(#[trigger] s[i])
}

/// The characters of `s`.
pub fn chars_of(s: &str) -> (r: Vec<char>)
    ensures
        r@ == s@,
{
    let mut out: Vec<char> = Vec::new();
    for c in it: s.chars()
        invariant
            out@ == it.seq().take(it.index()),
            it.seq() == s@,
    {
        proof {
            assert(it.seq().take(it.index() + 1) =~= it.seq().take(it.index()).push(c));
        }
        out.push(c);
    }
    proof {
        assert(s@.take(s@.len() as int) =~= s@);
    }
    out
}

/// The characters of `chars` from `from` up to `to`, as a string.
pub fn string_of(chars: &Vec<char>, from: usize, to: usize) -> (r: String)
    requires
        from <= to <= chars@.len(),
    ensures
        r@ == chars@.subrange(from as int, to as int),
{
    let mut out = String::new();
    let mut i: usize = from;
    while i < to
        invariant
            from <= i <= to <= chars@.len(),
            out@ == chars@.subrange(from as int, i as int),
        decreases to - i,
    {
        out.push(chars[i]);
        proof {
            assert(chars@.subrange(from as int, i + 1) =~= chars@.subrange(from as int, i as int).push(
                chars@[i as int],
            ));
        }
        i = i + 1;
    }
    out
}

/// Whether two texts hold the same characters.
pub fn same(a: &str, b: &str) -> (r: bool)
    ensures
        r == (a@ == b@),
{
    let x: &[u8] = a.as_bytes();
    let y: &[u8] = b.as_bytes();
    proof {
        encode_utf8_decode_utf8(a@);
        encode_utf8_decode_utf8(b@);
    }
    if x.len() != y.len() {
        return false;
    }
    let mut i: usize = 0;
    while i < x.len()
        invariant
            i <= x@.len(),
            x@.len() == y@.len(),
            x@ == a.spec_bytes(),
            y@ == b.spec_bytes(),
            forall|k: int| 0 <= k < i ==> x@[k] == y@[k],
        decreases x@.len() - i,
    {
        if x[i] != y[i] {
            return false;
        }
        i = i + 1;
    }
    proof {
        assert(x@ =~= y@);
    }
    true
}

proof fn lemma_trim_start_step(s: Seq<char>, i: int)
    requires
        0 <= i < s.len(),
        is_white_space(s[i]),
    ensures
        trim_start(s.skip(i)) == trim_start(s.skip(i + 1)),
{
    assert(s.skip(i).drop_first() =~= s.skip(i + 1));
}

proof fn lemma_trim_end_step(s: Seq<char>, i: int, j: int)
    requires
        0 <= i < j <= s.len(),
        is_white_space(s[j - 1]),
    ensures
        trim_end(s.subrange(i, j)) == trim_end(s.subrange(i, j - 1)),
{
    assert(s.subrange(i, j).drop_last() =~= s.subrange(i, j - 1));
}

/// How many leading characters of `chars` are white space.
fn leading_white_space(chars: &Vec<char>) -> (i: usize)
    ensures
        i <= chars@.len(),
        trim_start(chars@) == chars@.skip(i as int),
        i < chars@.len() ==> !is_white_space(chars@[i as int]),
{
    let mut i: usize = 0;
    proof {
        assert(chars@.skip(0) =~= chars@);
    }
    while i < chars.len() && white_space(chars[i])
        invariant
            i <= chars@.len(),
            trim_start(chars@) == trim_start(chars@.skip(i as int)),
        decreases chars@.len() - i,
    {
        proof {
            lemma_trim_start_step(chars@, i as int);
        }
        i = i + 1;
    }
    i
}

/// Where the text of `chars` from `i` on ends once its trailing white space is
/// left out.
fn trailing_white_space(chars: &Vec<char>, i: usize) -> (j: usize)
    requires
        i <= chars@.len(),
    ensures
        i <= j <= chars@.len(),
        trim_end(chars@.skip(i as int)) == chars@.subrange(i as int, j as int),
{
    let mut j: usize = chars.len();
    proof {
        assert(chars@.skip(i as int) =~= chars@.subrange(i as int, j as int));
    }
    while i < j && white_space(chars[j - 1])
        invariant
            i <= j <= chars@.len(),
            trim_end(chars@.skip(i as int)) == trim_end(chars@.subrange(i as int, j as int)),
        decreases j,
    {
        proof {
            lemma_trim_end_step(chars@, i as int, j as int);
        }
        j = j - 1;
    }
    j
}

/// `s` without white space at either end.
pub fn trimmed(s: &str) -> (r: String)
    ensures
        r@ == trim(s@),
{
    let chars = chars_of(s);
    let i: usize = leading_white_space(&chars);
    let j: usize = trailing_white_space(&chars, i);
    string_of(&chars, i, j)
}

/// `s` without trailing white space.
pub fn trimmed_end(s: &str) -> (r: String)
    ensures
        r@ == trim_end(s@),
{
    let chars = chars_of(s);
    let j: usize = trailing_white_space(&chars, 0);
    proof {
        assert(s@.skip(0) =~= s@);
    }
    string_of(&chars, 0, j)
}

/// A text is left empty by trimming exactly when all of it is white space.
pub proof fn lemma_trim_blank(s: Seq<char>)
    ensures
        is_blank(s) <==> trim(s).len() == 0,
        is_blank(s) <==> trim_start(s).len() == 0,
    decreases s.len(),
{
    if s.len() > 0 {
        if is_white_space(s.first()) {
            lemma_trim_blank(s.drop_first());
            assert(forall|i: int| 0 < i < s.len() ==> s[i] == #[trigger] s.drop_first()[i - 1]);
            if is_blank(s.drop_first()) {
                assert forall|i: int| 0 <= i < s.len() implies is_white_space(#[trigger] s[i]) by {
                    if i > 0 {
                        assert(is_white_space(s.drop_first()[i - 1]));
                    }
                }
            }
        } else {
            assert(!is_blank(s)) by {
                assert(!is_white_space(s[0]));
            }
            lemma_trim_end_keeps_first(s);
        }
    }
}

proof fn lemma_trim_end_keeps_first(s: Seq<char>)
    requires
        s.len() > 0,
        !is_white_space(s.first()),
    ensures
        trim_end(s).len() > 0,
    decreases s.len(),
{
    if is_white_space(s.last()) {
        assert(s.len() > 1);
        assert(s.drop_last().first() == s.first());
        lemma_trim_end_keeps_first(s.drop_last());
    }
}

/// Whether `s` holds nothing but white space.
pub fn blank(s: &str) -> (r: bool)
    ensures
        r == is_blank(s@),
        r == (trim(s@).len() == 0),
{
    let chars = chars_of(s);
    let i: usize = leading_white_space(&chars);
    proof {
        lemma_trim_blank(s@);
    }
    i == chars.len()
}

/// The text that an optional slice holds.
pub open spec fn opt_str(s: Option<&str>) -> Option<Seq<char>> {
    match s {
        Some(s) => Some(s@),
        None => None,
    }
}

/// An optional string, borrowed.
pub fn opt_as_str(s: &Option<String>) -> (r: Option<&str>)
    ensures
        opt_str(r) == opt_view(*s),
{
    match s {
        Some(s) => Some(s.as_str()),
        None => None,
    }
}

/// Whether two optional texts are the same.
pub fn same_opt(a: Option<&str>, b: Option<&str>) -> (r: bool)
    ensures
        r == (opt_str(a) == opt_str(b)),
{
    match (a, b) {
        (Some(a), Some(b)) => same(a, b),
        (None, None) => true,
        _ => false,
    }
}

/// Whether a list of strings holds a given text.
pub fn list_contains(v: &Vec<String>, s: &str) -> (r: bool)
    ensures
        r == views(v@).contains(s@),
{
    let mut i: usize = 0;
    while i < v.len()
        invariant
            i <= v@.len(),
            forall|k: int| 0 <= k < i ==> v@[k]@ != s@,
        decreases v@.len() - i,
    {
        if same(v[i].as_str(), s) {
            proof {
                assert(views(v@)[i as int] == s@);
            }
            return true;
        }
        i = i + 1;
    }
    proof {
        assert forall|k: int| 0 <= k < views(v@).len() implies views(v@)[k] != s@ by {}
    }
    false
}

/// Two texts, one after the other.
pub fn cat2(a: &str, b: &str) -> (r: String)
    ensures
        r@ == a@ + b@,
{
    let mut out = a.to_owned();
    out.append(b);
    out
}

/// Three texts in a row.
pub fn cat3(a: &str, b: &str, c: &str) -> (r: String)
    ensures
        r@ == a@ + b@ + c@,
{
    let mut out = cat2(a, b);
    out.append(c);
    out
}

/// Four texts in a row.
pub fn cat4(a: &str, b: &str, c: &str, d: &str) -> (r: String)
    ensures
        r@ == a@ + b@ + c@ + d@,
{
    let mut out = cat3(a, b, c);
    out.append(d);
    out
}

/// Five texts in a row.
pub fn cat5(a: &str, b: &str, c: &str, d: &str, e: &str) -> (r: String)
    ensures
        r@ == a@ + b@ + c@ + d@ + e@,
{
    let mut out = cat4(a, b, c, d);
    out.append(e);
    out
}

/// Six texts in a row.
pub fn cat6(a: &str, b: &str, c: &str, d: &str, e: &str, f: &str) -> (r: String)
    ensures
        r@ == a@ + b@ + c@ + d@ + e@ + f@,
{
    let mut out = cat5(a, b, c, d, e);
    out.append(f);
    out
}

/// Seven texts in a row.
pub fn cat7(a: &str, b: &str, c: &str, d: &str, e: &str, f: &str, g: &str) -> (r: String)
    ensures
        r@ == a@ + b@ + c@ + d@ + e@ + f@ + g@,
{
    let mut out = cat6(a, b, c, d, e, f);
    out.append(g);
    out
}

/// Eight texts in a row.
pub fn cat8(a: &str, b: &str, c: &str, d: &str, e: &str, f: &str, g: &str, h: &str) -> (r: String)
    ensures
        r@ == a@ + b@ + c@ + d@ + e@ + f@ + g@ + h@,
{
    let mut out = cat7(a, b, c, d, e, f, g);
    out.append(h);
    out
}

/// The texts of `parts` with `sep` between each two.
pub open spec fn join(parts: Seq<Seq<char>>, sep: Seq<char>) -> Seq<char>
    decreases parts.len(),
{
    if parts.len() == 0 {
        Seq::empty()
    } else if parts.len() == 1 {
        parts[0]
    } else {
        join(parts.drop_last(), sep) + sep + parts.last()
    }
}

/// The strings of `parts` with `sep` between each two.
pub fn joined(parts: &Vec<String>, sep: &str) -> (r: String)
    ensures
        r@ == join(views(parts@), sep@),
{
    let mut out = String::new();
    let mut i: usize = 0;
    proof {
        assert(views(parts@).take(0) =~= Seq::empty());
    }
    while i < parts.len()
        invariant
            i <= parts@.len(),
            out@ == join(views(parts@).take(i as int), sep@),
        decreases parts@.len() - i,
    {
        if i > 0 {
            out.append(sep);
        }
        out.append(parts[i].as_str());
        proof {
            let next = views(parts@).take(i + 1);
            assert(next.drop_last() =~= views(parts@).take(i as int));
            assert(next.last() == parts@[i as int]@);
            if i == 0 {
                assert(out@ =~= next[0]);
            }
        }
        i = i + 1;
    }
    proof {
        assert(views(parts@).take(i as int) =~= views(parts@));
    }
    out
}

/// How many leading characters of `s` are not white space.
pub open spec fn word_len(s: Seq<char>) -> nat
    decreases s.len(),
{
    if s.len() > 0 && !is_white_space(s.first()) {
        1 + word_len(s.drop_first())
    } else {
        0
    }
}

/// A word fits in the text that it starts, and is not empty where the text
/// does not start with white space.
pub proof fn lemma_word_len(s: Seq<char>)
    ensures
        word_len(s) <= s.len(),
        s.len() > 0 && !is_white_space(s.first()) ==> word_len(s) > 0,
    decreases s.len(),
{
    if s.len() > 0 && !is_white_space(s.first()) {
        lemma_word_len(s.drop_first());
    }
}

proof fn lemma_trim_start_shape(s: Seq<char>)
    ensures
        trim_start(s).len() <= s.len(),
        trim_start(s).len() > 0 ==> !is_white_space(trim_start(s).first()),
    decreases s.len(),
{
    if s.len() > 0 && is_white_space(s.first()) {
        lemma_trim_start_shape(s.drop_first());
    }
}

/// The words of `s`: its longest runs of characters that are not white space.
pub open spec fn words(s: Seq<char>) -> Seq<Seq<char>>
    decreases s.len(),
    via words_decreases
{
    let t = trim_start(s);
    if t.len() == 0 {
        Seq::empty()
    } else {
        seq![t.take(word_len(t) as int)] + words(t.skip(word_len(t) as int))
    }
}

#[via_fn]
proof fn words_decreases(s: Seq<char>) {
    lemma_trim_start_shape(s);
    lemma_word_len(trim_start(s));
}

/// The words of `s`.
pub fn split_words(s: &str) -> (r: Vec<String>)
    ensures
        views(r@) == words(s@),
{
    let chars = chars_of(s);
    let mut out: Vec<String> = Vec::new();
    let mut pos: usize = 0;
    proof {
        assert(chars@.skip(0) =~= chars@);
        assert(views(out@) + words(chars@) =~= words(chars@));
    }
    loop
        invariant
            pos <= chars@.len(),
            words(chars@) == views(out@) + words(chars@.skip(pos as int)),
        ensures
            words(chars@) == views(out@),
        decreases chars@.len() - pos,
    {
        let ghost rest = chars@.skip(pos as int);
        let ghost entry = pos;
        while pos < chars.len() && white_space(chars[pos])
            invariant
                entry <= pos <= chars@.len(),
                trim_start(rest) == trim_start(chars@.skip(pos as int)),
            decreases chars@.len() - pos,
        {
            proof {
                lemma_trim_start_step(chars@, pos as int);
            }
            pos = pos + 1;
        }
        if pos == chars.len() {
            proof {
                assert(trim_start(rest).len() == 0);
                assert(views(out@) + words(rest) =~= views(out@));
            }
            break ;
        }
        let start: usize = pos;
        let ghost t = chars@.skip(start as int);
        proof {
            assert(trim_start(rest) == t);
            assert(t.subrange(0, 0) =~= Seq::empty());
        }
        while pos < chars.len() && !white_space(chars[pos])
            invariant
                start <= pos <= chars@.len(),
                t == chars@.skip(start as int),
                word_len(t) == (pos - start) + word_len(chars@.skip(pos as int)),
                start == pos ==> pos < chars@.len() && !is_white_space(chars@[pos as int]),
            decreases chars@.len() - pos,
        {
            proof {
                assert(chars@.skip(pos as int).drop_first() =~= chars@.skip(pos + 1));
            }
            pos = pos + 1;
        }
        let word = string_of(&chars, start, pos);
        let ghost before = out@;
        proof {
            assert(word_len(t) == pos - start);
            assert(t.take(word_len(t) as int) =~= word@);
            assert(t.skip(word_len(t) as int) =~= chars@.skip(pos as int));
        }
        out.push(word);
        proof {
            assert(views(out@) =~= views(before) + seq![word@]);
            assert(views(before) + (seq![word@] + words(chars@.skip(pos as int))) =~= views(out@)
                + words(chars@.skip(pos as int)));
        }
    }
    out
}

/// The digit of `d`.
pub open spec fn digit(d: int) -> char {
    (48 + d) as char
}

/// `n` in decimal notation.
pub open spec fn decimal(n: nat) -> Seq<char>
    decreases n,
{
    if n < 10 {
        seq![digit(n as int)]
    } else {
        decimal(n / 10).push(digit((n % 10) as int))
    }
}

/// `n` in decimal notation.
pub fn decimal_string(n: u64) -> (r: String)
    ensures
        r@ == decimal(n as nat),
    decreases n,
{
    let last: u8 = (n % 10) as u8;
    let mut out = if n < 10 {
        String::new()
    } else {
        decimal_string(n / 10)
    };
    out.push((48 + last) as char);
    out
}

/// Whether `needle` stands in `hay` at `at`.
pub open spec fn occurs_at(hay: Seq<char>, needle: Seq<char>, at: int) -> bool {
    0 <= at && at + needle.len() <= hay.len() && hay.subrange(at, at + needle.len()) == needle
}

/// Whether `needle` stands anywhere in `hay`.
pub open spec fn occurs(hay: Seq<char>, needle: Seq<char>) -> bool {
    exists|at: int| occurs_at(hay, needle, at)
}

/// Whether `needle` stands in `hay` at `at`.
pub fn matches_at(hay: &Vec<char>, needle: &Vec<char>, at: usize) -> (r: bool)
    requires
        at <= hay@.len(),
    ensures
        r == occurs_at(hay@, needle@, at as int),
{
    if needle.len() > hay.len() - at {
        return false;
    }
    let end: usize = hay.len();
    let mut i: usize = 0;
    while i < needle.len()
        invariant
            at + needle@.len() <= hay@.len() == end,
            i <= needle@.len(),
            forall|k: int| 0 <= k < i ==> hay@[at + k] == needle@[k],
        decreases needle@.len() - i,
    {
        if hay[at + i] != needle[i] {
            proof {
                assert(hay@.subrange(at as int, at + needle@.len())[i as int] != needle@[i as int]);
            }
            return false;
        }
        i = i + 1;
    }
    proof {
        assert(hay@.subrange(at as int, at + needle@.len()) =~= needle@);
    }
    true
}

/// Where `needle` first stands in `hay` at or behind `from`.
pub open spec fn is_first_from(hay: Seq<char>, needle: Seq<char>, from: int, at: int) -> bool {
    &&& from <= at
    &&& occurs_at(hay, needle, at)
    &&& forall|k: int| from <= k < at ==> !occurs_at(hay, needle, k)
}

/// The first place at or behind `from` where `needle` stands in `hay`.
pub fn find_from(hay: &Vec<char>, needle: &Vec<char>, from: usize) -> (r: Option<usize>)
    requires
        from <= hay@.len(),
    ensures
        match r {
            Some(at) => is_first_from(hay@, needle@, from as int, at as int),
            None => forall|k: int| from <= k ==> !occurs_at(hay@, needle@, k),
        },
{
    let mut at: usize = from;
    loop
        invariant
            from <= at <= hay@.len(),
            forall|k: int| from <= k < at ==> !occurs_at(hay@, needle@, k),
        decreases hay@.len() - at,
    {
        if matches_at(hay, needle, at) {
            return Some(at);
        }
        if at == hay.len() {
            return None;
        }
        at = at + 1;
    }
}

/// Whether `needle` stands anywhere in `hay`.
pub fn text_contains(hay: &str, needle: &str) -> (r: bool)
    ensures
        r == occurs(hay@, needle@),
{
    let h = chars_of(hay);
    let n = chars_of(needle);
    match find_from(&h, &n, 0) {
        Some(at) => {
            proof {
                assert(occurs_at(hay@, needle@, at as int));
            }
            true
        },
        None => false,
    }
}

/// Whether `s` starts with `prefix`.
pub open spec fn has_prefix(s: Seq<char>, prefix: Seq<char>) -> bool {
    occurs_at(s, prefix, 0)
}

/// Whether `s` ends with `suffix`.
pub open spec fn has_suffix(s: Seq<char>, suffix: Seq<char>) -> bool {
    occurs_at(s, suffix, s.len() - suffix.len())
}

/// Whether `s` starts with `prefix`.
pub fn starts_with(s: &str, prefix: &str) -> (r: bool)
    ensures
        r == has_prefix(s@, prefix@),
{
    let h = chars_of(s);
    let p = chars_of(prefix);
    matches_at(&h, &p, 0)
}

/// Whether `s` ends with `suffix`.
pub fn ends_with(s: &str, suffix: &str) -> (r: bool)
    ensures
        r == has_suffix(s@, suffix@),
{
    let h = chars_of(s);
    let p = chars_of(suffix);
    if p.len() > h.len() {
        return false;
    }
    matches_at(&h, &p, h.len() - p.len())
}

/// What is left of `s` behind `prefix`, where it starts with it.
pub fn strip_prefix(s: &str, prefix: &str) -> (r: Option<String>)
    ensures
        match r {
            Some(rest) => has_prefix(s@, prefix@) && rest@ == s@.skip(prefix@.len() as int),
            None => !has_prefix(s@, prefix@),
        },
{
    let h = chars_of(s);
    let p = chars_of(prefix);
    if matches_at(&h, &p, 0) {
        let rest = string_of(&h, p.len(), h.len());
        proof {
            assert(rest@ =~= s@.skip(prefix@.len() as int));
        }
        Some(rest)
    } else {
        None
    }
}

/// `c` with an upper-case ASCII letter turned into its lower-case one.
pub open spec fn ascii_lower(c: char) -> char {
    if 'A' <= c <= 'Z' {
        (c as u32 + 32) as char
    } else {
        c
    }
}

/// `s` with its upper-case ASCII letters turned into lower-case ones.
pub open spec fn ascii_lowercase(s: Seq<char>) -> Seq<char> {
    Seq::new(s.len(), |i: int| ascii_lower(s[i]))
}

/// `c` with an upper-case ASCII letter turned into its lower-case one.
pub fn lower_char(c: char) -> (r: char)
    ensures
        r == ascii_lower(c),
{
    if 'A' <= c && c <= 'Z' {
        ((c as u8) + 32) as char
    } else {
        c
    }
}

/// `s` with its upper-case ASCII letters turned into lower-case ones.
pub fn ascii_lowered(s: &str) -> (r: String)
    ensures
        r@ == ascii_lowercase(s@),
{
    let chars = chars_of(s);
    let mut out = String::new();
    let mut i: usize = 0;
    while i < chars.len()
        invariant
            i <= chars@.len(),
            chars@ == s@,
            out@ == ascii_lowercase(s@).take(i as int),
        decreases chars@.len() - i,
    {
        out.push(lower_char(chars[i]));
        proof {
            assert(ascii_lowercase(s@).take(i + 1) =~= ascii_lowercase(s@).take(i as int).push(
                ascii_lower(s@[i as int]),
            ));
        }
        i = i + 1;
    }
    proof {
        assert(ascii_lowercase(s@).take(i as int) =~= ascii_lowercase(s@));
    }
    out
}

/// The lower-case form of a text that `str::to_lowercase` gives.
pub uninterp spec fn lowercase(s: Seq<char>) -> Seq<char>;

/// `str::to_lowercase`: the lower-case form of `s` in Unicode's sense. Of an
/// ASCII text it is the text with its upper-case letters turned into lower-case
/// ones; of other texts only that it depends on the text alone is claimed.
#[verifier::external_body]
pub(crate) fn lowered(s: &str) -> (r: String)
    ensures
        r@ == lowercase(s@),
        vstd::utf8::is_ascii_chars(s@) ==> r@ == ascii_lowercase(s@),
{
    s.to_lowercase()
}

/// The first `n` characters of `s`, or all of it where it is shorter.
pub open spec fn first_chars(s: Seq<char>, n: nat) -> Seq<char> {
    if s.len() <= n {
        s
    } else {
        s.take(n as int)
    }
}

/// The first `n` characters of `s`, or all of it where it is shorter.
pub fn take_chars(s: &str, n: usize) -> (r: String)
    ensures
        r@ == first_chars(s@, n as nat),
{
    let chars = chars_of(s);
    if chars.len() <= n {
        s.to_owned()
    } else {
        let out = string_of(&chars, 0, n);
        proof {
            assert(out@ =~= s@.take(n as int));
        }
        out
    }
}

/// Whether `a` comes before `b` in the order of their characters' code points.
pub open spec fn comes_before(a: Seq<char>, b: Seq<char>) -> bool
    decreases a.len(),
{
    if b.len() == 0 {
        false
    } else if a.len() == 0 {
        true
    } else if a[0] != b[0] {
        a[0] < b[0]
    } else {
        comes_before(a.drop_first(), b.drop_first())
    }
}

/// Of two texts, one comes before the other or they are the same.
pub proof fn lemma_order_is_total(a: Seq<char>, b: Seq<char>)
    ensures
        !(comes_before(a, b) && comes_before(b, a)),
        comes_before(a, b) || comes_before(b, a) || a == b,
    decreases a.len(),
{
    if a.len() == 0 || b.len() == 0 {
        assert(a.len() == b.len() ==> a =~= b);
    } else if a[0] == b[0] {
        lemma_order_is_total(a.drop_first(), b.drop_first());
        assert(a.drop_first() == b.drop_first() ==> a =~= seq![a[0]] + a.drop_first() && b =~= seq![
            b[0],
        ] + b.drop_first());
    }
}

/// The order of texts passes through a third.
pub proof fn lemma_order_is_transitive(a: Seq<char>, b: Seq<char>, c: Seq<char>)
    requires
        comes_before(a, b),
        comes_before(b, c),
    ensures
        comes_before(a, c),
    decreases a.len(),
{
    if a.len() > 0 && b.len() > 0 && c.len() > 0 && a[0] == b[0] && b[0] == c[0] {
        lemma_order_is_transitive(a.drop_first(), b.drop_first(), c.drop_first());
    }
}

/// Whether `a` comes before `b`.
pub fn precedes(a: &str, b: &str) -> (r: bool)
    ensures
        r == comes_before(a@, b@),
{
    let x = chars_of(a);
    let y = chars_of(b);
    let mut i: usize = 0;
    proof {
        assert(x@.skip(0) =~= a@);
        assert(y@.skip(0) =~= b@);
    }
    while i < x.len() && i < y.len() && x[i] == y[i]
        invariant
            i <= x@.len(),
            i <= y@.len(),
            comes_before(a@, b@) == comes_before(x@.skip(i as int), y@.skip(i as int)),
        decreases x@.len() - i,
    {
        proof {
            assert(x@.skip(i as int).drop_first() =~= x@.skip(i + 1));
            assert(y@.skip(i as int).drop_first() =~= y@.skip(i + 1));
        }
        i = i + 1;
    }
    if i == y.len() {
        false
    } else if i == x.len() {
        true
    } else {
        x[i] < y[i]
    }
}

/// `s` without the characters `c` at its end.
pub open spec fn trim_end_of(s: Seq<char>, c: char) -> Seq<char>
    decreases s.len(),
{
    if s.len() > 0 && s.last() == c {
        trim_end_of(s.drop_last(), c)
    } else {
        s
    }
}

/// `s` without the repetitions of `prefix` at its start.
pub open spec fn trim_start_of(s: Seq<char>, prefix: Seq<char>) -> Seq<char>
    decreases s.len(),
{
    if prefix.len() > 0 && has_prefix(s, prefix) {
        trim_start_of(s.skip(prefix.len() as int), prefix)
    } else {
        s
    }
}

/// `s` without the characters `c` at its end.
pub fn trimmed_end_of(s: &str, c: char) -> (r: String)
    ensures
        r@ == trim_end_of(s@, c),
{
    let chars = chars_of(s);
    let mut end: usize = chars.len();
    proof {
        assert(chars@.take(end as int) =~= s@);
    }
    while end > 0 && chars[end - 1] == c
        invariant
            end <= chars@.len(),
            trim_end_of(s@, c) == trim_end_of(chars@.take(end as int), c),
        decreases end,
    {
        proof {
            assert(chars@.take(end as int).drop_last() =~= chars@.take(end - 1));
        }
        end = end - 1;
    }
    let r = string_of(&chars, 0, end);
    proof {
        assert(r@ =~= chars@.take(end as int));
    }
    r
}

/// `s` without the repetitions of `prefix` at its start.
pub fn trimmed_start_of(s: &str, prefix: &str) -> (r: String)
    requires
        prefix@.len() > 0,
    ensures
        r@ == trim_start_of(s@, prefix@),
{
    let chars = chars_of(s);
    let p = chars_of(prefix);
    let total: usize = chars.len();
    let mut start: usize = 0;
    proof {
        assert(chars@.skip(0) =~= s@);
    }
    while matches_at(&chars, &p, start)
        invariant
            start <= chars@.len() == total,
            p@ == prefix@,
            p@.len() > 0,
            trim_start_of(s@, prefix@) == trim_start_of(chars@.skip(start as int), prefix@),
        decreases chars@.len() - start,
    {
        proof {
            let rest = chars@.skip(start as int);
            assert(rest.subrange(0, p@.len() as int) =~= chars@.subrange(
                start as int,
                start + p@.len(),
            ));
            assert(rest.skip(p@.len() as int) =~= chars@.skip(start + p@.len()));
        }
        start = start + p.len();
    }
    let r = string_of(&chars, start, chars.len());
    proof {
        let rest = chars@.skip(start as int);
        assert(r@ =~= rest);
        if has_prefix(rest, prefix@) {
            assert(rest.subrange(0, p@.len() as int) =~= chars@.subrange(
                start as int,
                start + p@.len(),
            ));
        }
    }
    r
}

/// How many bytes a text takes.
pub open spec fn byte_len(s: Seq<char>) -> nat {
    encode_utf8(s).len()
}

/// One more character takes its own bytes.
pub proof fn lemma_byte_len_push(s: Seq<char>, c: char)
    ensures
        byte_len(s.push(c)) == byte_len(s) + encode_scalar(c as u32).len(),
    decreases s.len(),
{
    if s.len() == 0 {
        assert(s.push(c).drop_first() =~= s);
    } else {
        lemma_byte_len_push(s.drop_first(), c);
        assert(s.push(c).drop_first() =~= s.drop_first().push(c));
    }
}

/// How many bytes a character takes.
pub fn char_width(c: char) -> (r: usize)
    ensures
        r == encode_scalar(c as u32).len(),
        1 <= r <= 4,
{
    proof {
        char_is_scalar(c);
    }
    let code: u32 = c as u32;
    if code <= 0x7f {
        1
    } else if code <= 0x7ff {
        2
    } else if code <= 0xffff {
        3
    } else {
        4
    }
}

/// How many characters stand in the first `offset` bytes of a text, where those
/// end between two characters.
pub open spec fn chars_before(s: Seq<char>, offset: nat) -> Option<nat>
    decreases s.len(),
{
    if offset == 0 {
        Some(0)
    } else if s.len() == 0 || offset < encode_scalar(s[0] as u32).len() {
        None
    } else {
        match chars_before(
            s.drop_first(),
            (offset - encode_scalar(s[0] as u32).len()) as nat,
        ) {
            Some(n) => Some(n + 1),
            None => None,
        }
    }
}

/// The part of a text from one byte up to another, where both stand between two
/// characters.
pub open spec fn slice_of(s: Seq<char>, start: nat, end: nat) -> Option<Seq<char>> {
    match (chars_before(s, start), chars_before(s, end)) {
        (Some(a), Some(b)) => if start <= end {
            Some(s.subrange(a as int, b as int))
        } else {
            None
        },
        _ => None,
    }
}

/// A place between two characters is one that the bytes of the text have a
/// boundary at.
pub proof fn lemma_chars_before(s: Seq<char>, offset: nat)
    ensures
        chars_before(s, offset) is Some <==> is_char_boundary(encode_utf8(s), offset as int),
        chars_before(s, offset) is Some ==> chars_before(s, offset)->Some_0 <= s.len(),
    decreases s.len(),
{
    let bytes = encode_utf8(s);
    encode_utf8_valid_utf8(s);
    if s.len() > 0 {
        encode_utf8_first_scalar(s);
        let width = encode_scalar(s[0] as u32).len();
        assert(pop_first_scalar(bytes) =~= encode_utf8(s.drop_first()));
        if offset >= width {
            lemma_chars_before(s.drop_first(), (offset - width) as nat);
            if bytes.len() < offset {
                assert(encode_utf8(s.drop_first()).len() < offset - width);
            }
        } else if 0 < offset <= bytes.len() {
            encode_utf8_valid_utf8(s.drop_first());
            assert(!is_char_boundary(encode_utf8(s.drop_first()), offset - width));
        }
    }
}

/// A later place has no fewer characters before it.
pub proof fn lemma_chars_before_grows(s: Seq<char>, start: nat, end: nat)
    requires
        start <= end,
        chars_before(s, start) is Some,
        chars_before(s, end) is Some,
    ensures
        chars_before(s, start)->Some_0 <= chars_before(s, end)->Some_0 <= s.len(),
    decreases s.len(),
{
    lemma_chars_before(s, end);
    if start > 0 {
        let width = encode_scalar(s[0] as u32).len();
        lemma_chars_before_grows(
            s.drop_first(),
            (start - width) as nat,
            (end - width) as nat,
        );
    }
}

/// How many characters stand in the first `offset` bytes of `chars`.
fn count_before(chars: &Vec<char>, offset: usize) -> (r: Option<usize>)
    ensures
        match r {
            Some(n) => chars_before(chars@, offset as nat) == Some(n as nat) && n <= chars@.len(),
            None => chars_before(chars@, offset as nat) is None,
        },
{
    let mut left: usize = offset;
    let mut i: usize = 0;
    proof {
        assert(chars@.skip(0) =~= chars@);
    }
    while left > 0
        invariant
            i <= chars@.len(),
            match chars_before(chars@.skip(i as int), left as nat) {
                Some(n) => chars_before(chars@, offset as nat) == Some((n + i) as nat),
                None => chars_before(chars@, offset as nat) is None,
            },
        decreases left,
    {
        if i == chars.len() {
            return None;
        }
        let width: usize = char_width(chars[i]);
        proof {
            assert(chars@.skip(i as int)[0] == chars@[i as int]);
            assert(chars@.skip(i as int).drop_first() =~= chars@.skip(i + 1));
        }
        if left < width {
            return None;
        }
        left = left - width;
        i = i + 1;
    }
    Some(i)
}

/// The part of a text from one byte up to another, where both stand between two
/// characters.
pub fn byte_slice(s: &str, start: usize, end: usize) -> (r: Option<String>)
    ensures
        match r {
            Some(part) => slice_of(s@, start as nat, end as nat) == Some(part@),
            None => slice_of(s@, start as nat, end as nat) is None,
        },
{
    if start > end {
        return None;
    }
    let chars = chars_of(s);
    match (count_before(&chars, start), count_before(&chars, end)) {
        (Some(a), Some(b)) => {
            proof {
                lemma_chars_before_grows(s@, start as nat, end as nat);
            }
            Some(string_of(&chars, a, b))
        },
        _ => None,
    }
}

/// A text that is not blank starts with a word, and a word is never empty.
pub proof fn lemma_first_word(s: Seq<char>)
    requires
        !is_blank(s),
    ensures
        words(s).len() > 0,
        words(s)[0].len() > 0,
{
    lemma_trim_blank(s);
    lemma_trim_start_shape(s);
    lemma_word_len(trim_start(s));
}

/// Trimming takes white space off the start of a text, all of it and nothing else.
pub proof fn lemma_trim_start_cuts(s: Seq<char>)
    ensures
        trim_start(s).len() <= s.len(),
        trim_start(s) == s.skip(s.len() - trim_start(s).len()),
        is_blank(s.take(s.len() - trim_start(s).len())),
        trim_start(s).len() > 0 ==> !is_white_space(trim_start(s).first()),
    decreases s.len(),
{
    if s.len() > 0 && is_white_space(s.first()) {
        let rest = s.drop_first();
        lemma_trim_start_cuts(rest);
        let n = s.len() - trim_start(s).len();
        assert(trim_start(s) =~= s.skip(n));
        let cut = s.take(n);
        let less = rest.take(n - 1);
        assert forall|i: int| 0 <= i < cut.len() implies is_white_space(#[trigger] cut[i]) by {
            if i > 0 {
                assert(less[i - 1] == cut[i]);
            }
        }
    } else {
        assert(s.skip(0) =~= s);
    }
}

/// Trimming takes white space off the end of a text, all of it and nothing else.
pub proof fn lemma_trim_end_cuts(s: Seq<char>)
    ensures
        trim_end(s).len() <= s.len(),
        trim_end(s) == s.take(trim_end(s).len() as int),
        is_blank(s.skip(trim_end(s).len() as int)),
        trim_end(s).len() > 0 ==> !is_white_space(trim_end(s).last()),
    decreases s.len(),
{
    if s.len() > 0 && is_white_space(s.last()) {
        let front = s.drop_last();
        lemma_trim_end_cuts(front);
        let n = trim_end(s).len() as int;
        assert(trim_end(s) =~= s.take(n));
        let cut = s.skip(n);
        let less = front.skip(n);
        assert forall|i: int| 0 <= i < cut.len() implies is_white_space(#[trigger] cut[i]) by {
            if i < less.len() {
                assert(less[i] == cut[i]);
            }
        }
    } else {
        assert(s.take(s.len() as int) =~= s);
    }
}

/// Whether `from` and `to` are where `s` starts and ends without the white space
/// around it.
pub open spec fn is_trimmed(s: Seq<char>, from: int, to: int) -> bool {
    &&& 0 <= from <= to <= s.len()
    &&& is_blank(s.take(from))
    &&& is_blank(s.skip(to))
    &&& from < to ==> !is_white_space(s[from]) && !is_white_space(s[to - 1])
}

/// What is left of a trimmed text stands in it, with white space around it and none
/// at its ends.
pub proof fn lemma_trim_cuts(s: Seq<char>) -> (r: (int, int))
    ensures
        is_trimmed(s, r.0, r.1),
        trim(s) == s.subrange(r.0, r.1),
{
    lemma_trim_start_cuts(s);
    let inner = trim_start(s);
    lemma_trim_end_cuts(inner);
    let from = s.len() - inner.len();
    let to = from + trim(s).len();
    assert(trim(s) =~= s.subrange(from, to));
    let cut = s.skip(to);
    let less = inner.skip(trim(s).len() as int);
    assert(cut =~= less);
    if from < to {
        assert(trim(s).first() == s[from]) by {
            assert(trim(s)[0] == s[from]);
        }
        assert(inner.first() == s[from]);
        assert(trim(s).last() == s[to - 1]);
    }
    (from, to)
}

/// A text without white space at its ends is left as it is.
pub proof fn lemma_trim_keeps(s: Seq<char>)
    requires
        s.len() > 0 ==> !is_white_space(s.first()) && !is_white_space(s.last()),
    ensures
        trim(s) == s,
{
}

/// Only the given character is taken off the end of a text, as often as it stands
/// there.
pub proof fn lemma_trim_end_of_cuts(s: Seq<char>, c: char)
    ensures
        trim_end_of(s, c).len() <= s.len(),
        trim_end_of(s, c) == s.take(trim_end_of(s, c).len() as int),
        forall|i: int| trim_end_of(s, c).len() <= i < s.len() ==> #[trigger] s[i] == c,
        trim_end_of(s, c).len() > 0 ==> trim_end_of(s, c).last() != c,
    decreases s.len(),
{
    if s.len() > 0 && s.last() == c {
        let front = s.drop_last();
        lemma_trim_end_of_cuts(front, c);
        let n = trim_end_of(s, c).len() as int;
        assert(trim_end_of(s, c) =~= s.take(n));
        assert forall|i: int| n <= i < s.len() implies #[trigger] s[i] == c by {
            if i < front.len() {
                assert(front[i] == s[i]);
            }
        }
    } else {
        assert(s.take(s.len() as int) =~= s);
    }
}

/// Words keep every character of a text that is not white space, in its order, and
/// hold no other.
pub proof fn lemma_words_keep_the_text(s: Seq<char>)
    ensures
        words(s).flatten() == s.filter(|c: char| !is_white_space(c)),
        forall|k: int| 0 <= k < words(s).len() ==> (#[trigger] words(s)[k]).len() > 0,
    decreases s.len(),
{
    let f = |c: char| !is_white_space(c);
    reveal(Seq::filter);
    let t = trim_start(s);
    lemma_trim_start_cuts(s);
    let blank = s.take(s.len() - t.len());
    assert(s =~= blank + t);
    lemma_filter_adds(blank, t, f);
    lemma_filter_drops(blank, f);
    if t.len() == 0 {
        assert(words(s) =~= Seq::empty());
        assert(t.filter(f) =~= Seq::empty());
        assert(words(s).flatten() =~= s.filter(f));
    } else {
        lemma_word_len(t);
        lemma_word_is_solid(t);
        let n = word_len(t) as int;
        let word = t.take(n);
        let rest = t.skip(n);
        assert(t =~= word + rest);
        lemma_filter_adds(word, rest, f);
        lemma_filter_keeps_all(word, f);
        lemma_words_keep_the_text(rest);
        let all = words(s);
        assert(all == seq![word] + words(rest));
        assert(all.drop_first() =~= words(rest));
        assert(all.first() == word);
        assert(all.flatten() =~= word + words(rest).flatten());
        assert forall|k: int| 0 <= k < all.len() implies (#[trigger] all[k]).len() > 0 by {
            if k > 0 {
                assert(all[k] == words(rest)[k - 1]);
            }
        }
    }
}

proof fn lemma_word_is_solid(s: Seq<char>)
    ensures
        word_len(s) <= s.len(),
        forall|i: int| 0 <= i < word_len(s) ==> !is_white_space(#[trigger] s[i]),
        word_len(s) < s.len() ==> is_white_space(s[word_len(s) as int]),
    decreases s.len(),
{
    if s.len() > 0 && !is_white_space(s.first()) {
        let rest = s.drop_first();
        lemma_word_is_solid(rest);
        assert forall|i: int| 0 <= i < word_len(s) implies !is_white_space(#[trigger] s[i]) by {
            if i > 0 {
                assert(rest[i - 1] == s[i]);
            }
        }
        assert(word_len(s) < s.len() ==> rest[word_len(rest) as int] == s[word_len(s) as int]);
    }
}

/// Keeping some of the items of two lists in a row keeps some of each.
pub proof fn lemma_filter_adds<A>(a: Seq<A>, b: Seq<A>, f: spec_fn(A) -> bool)
    ensures
        (a + b).filter(f) == a.filter(f) + b.filter(f),
    decreases b.len(),
{
    reveal(Seq::filter);
    if b.len() == 0 {
        assert(a + b =~= a);
        assert(a.filter(f) + b.filter(f) =~= a.filter(f));
    } else {
        assert((a + b).drop_last() =~= a + b.drop_last());
        lemma_filter_adds(a, b.drop_last(), f);
        assert((a + b).filter(f) =~= a.filter(f) + b.filter(f));
    }
}

proof fn lemma_filter_drops(s: Seq<char>, f: spec_fn(char) -> bool)
    requires
        forall|i: int| 0 <= i < s.len() ==> !f(#[trigger] s[i]),
    ensures
        s.filter(f) == Seq::<char>::empty(),
    decreases s.len(),
{
    reveal(Seq::filter);
    if s.len() > 0 {
        let front = s.drop_last();
        assert(forall|i: int| 0 <= i < front.len() ==> #[trigger] front[i] == s[i]);
        lemma_filter_drops(front, f);
    }
}

proof fn lemma_filter_keeps_all(s: Seq<char>, f: spec_fn(char) -> bool)
    requires
        forall|i: int| 0 <= i < s.len() ==> f(#[trigger] s[i]),
    ensures
        s.filter(f) == s,
    decreases s.len(),
{
    reveal(Seq::filter);
    if s.len() > 0 {
        let front = s.drop_last();
        assert(forall|i: int| 0 <= i < front.len() ==> #[trigger] front[i] == s[i]);
        lemma_filter_keeps_all(front, f);
        assert(s.filter(f) =~= s);
    } else {
        assert(s.filter(f) =~= s);
    }
}

/// The number that a row of digits stands for.
pub open spec fn value_of(digits: Seq<char>) -> nat
    decreases digits.len(),
{
    if digits.len() == 0 {
        0
    } else {
        (value_of(digits.drop_last()) * 10 + (digits.last() as u32 - 48)) as nat
    }
}

/// A number in decimal notation is a row of digits that stands for it, and starts
/// with a zero only where it is zero.
pub proof fn lemma_decimal_is_read_back(n: nat)
    ensures
        value_of(decimal(n)) == n,
        decimal(n).len() > 0,
        forall|i: int| 0 <= i < decimal(n).len() ==> '0' <= #[trigger] decimal(n)[i] <= '9',
        decimal(n)[0] == '0' ==> n == 0,
    decreases n,
{
    let all = decimal(n);
    reveal_with_fuel(value_of, 2);
    if n < 10 {
        assert(all.drop_last() =~= Seq::empty());
        assert(all.last() as u32 == 48 + n);
    } else {
        lemma_decimal_is_read_back(n / 10);
        let head = decimal(n / 10);
        assert(all.drop_last() =~= head);
        assert(all.last() as u32 == 48 + n % 10);
        assert(all[0] == head[0]);
        assert forall|i: int| 0 <= i < all.len() implies '0' <= #[trigger] all[i] <= '9' by {
            if i < head.len() {
                assert(all[i] == head[i]);
            }
        }
    }
}

} // verus!
