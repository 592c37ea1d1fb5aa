//! Text primitives. A string is modelled by its sequence of characters.
use vstd::prelude::*;
use vstd::string::*;

verus! {

/// `String::push`: appends one character at the end.
pub assume_specification[ std::string::String::push ](s: &mut std::string::String, c: char)
    ensures
        final(s)@ == old(s)@.push(c),
;

/// The characters of `s`, in order.
pub fn chars_of(s: &str) -> (v: Vec<char>)
    ensures
        v@ == s@,
{
    let mut v: Vec<char> = Vec::new();
    for c in it: s.chars()
        invariant
            it.seq() == s@,
            v@ == it.seq().take(it.index() as int),
    {
        v.push(c);
    }
    v
}

/// The string whose characters are `v[from..to]`.
pub fn string_of(v: &Vec<char>, from: usize, to: usize) -> (s: String)
    requires
        from <= to <= v@.len(),
    ensures
        s@ == v@.subrange(from as int, to as int),
{
    let mut s = String::new();
    let mut i: usize = from;
    while i < to
        invariant
            from <= i <= to <= v@.len(),
            s@ == v@.subrange(from as int, i as int),
        decreases to - i,
    {
        s.push(v[i]);
        i += 1;
        assert(v@.subrange(from as int, i as int) =~= v@.subrange(from as int, i - 1).push(v@[i - 1]));
    }
    s
}

/// Decimal digits of `n`, most significant first, without leading zeros.
pub open spec fn decimal(n: nat) -> Seq<char>
    decreases n,
{
    if n < 10 {
        seq![digit(n)]
    } else {
        decimal(n / 10).push(digit(n % 10))
    }
}

/// The character of a decimal digit.
pub open spec fn digit(d: nat) -> char {
    ('0' as u32 + d) as char
}

fn digit_char(d: u64) -> (c: char)
    requires
        d < 10,
    ensures
        c == digit(d as nat),
{
    match d {
        0 => '0',
        1 => '1',
        2 => '2',
        3 => '3',
        4 => '4',
        5 => '5',
        6 => '6',
        7 => '7',
        8 => '8',
        _ => '9',
    }
}

/// `n` in decimal.
pub fn decimal_string(n: u64) -> (s: String)
    ensures
        s@ == decimal(n as nat),
    decreases n,
{
    if n < 10 {
        let mut s = String::new();
        s.push(digit_char(n));
        assert(s@ =~= seq![digit(n as nat)]);
        s
    } else {
        let mut s = decimal_string(n / 10);
        s.push(digit_char(n % 10));
        s
    }
}

/// `n` in decimal, with a leading `-` when negative.
pub open spec fn decimal_int(n: int) -> Seq<char> {
    if n < 0 {
        "-"@ + decimal((-n) as nat)
    } else {
        decimal(n as nat)
    }
}

/// A signed number in decimal.
pub fn decimal_i64(n: i64) -> (s: String)
    ensures
        s@ == decimal_int(n as int),
{
    if n >= 0 {
        decimal_string(n as u64)
    } else {
        let magnitude: u64 = ((-(n + 1)) as u64) + 1;
        let mut s = "-".to_owned();
        s.append(decimal_string(magnitude).as_str());
        s
    }
}

/// A lowercase hexadecimal digit.
pub open spec fn hex_digit(d: nat) -> char {
    if d < 10 {
        ('0' as u32 + d) as char
    } else {
        ('a' as u32 + (d - 10)) as char
    }
}

/// The `width` least significant hexadecimal digits of `n`, most significant
/// first.
pub open spec fn hex(n: nat, width: nat) -> Seq<char>
    decreases width,
{
    if width == 0 {
        Seq::empty()
    } else {
        hex(n / 16, (width - 1) as nat).push(hex_digit(n % 16))
    }
}

fn hex_char(d: u64) -> (c: char)
    requires
        d < 16,
    ensures
        c == hex_digit(d as nat),
{
    match d {
        10 => 'a',
        11 => 'b',
        12 => 'c',
        13 => 'd',
        14 => 'e',
        15 => 'f',
        _ => digit_char(d),
    }
}

/// The `width` least significant hexadecimal digits of `n`.
pub fn hex_string(n: u64, width: u64) -> (s: String)
    ensures
        s@ == hex(n as nat, width as nat),
    decreases width,
{
    if width == 0 {
        String::new()
    } else {
        let mut s = hex_string(n / 16, width - 1);
        s.push(hex_char(n % 16));
        s
    }
}

/// Unicode `White_Space`.
pub open spec fn is_white_space(c: char) -> bool {
    let u = c as u32;
    ||| 0x09 <= u <= 0x0d
    ||| u == 0x20
    ||| u == 0x85
    ||| u == 0xa0
    ||| u == 0x1680
    ||| 0x2000 <= u <= 0x200a
    ||| u == 0x2028
    ||| u == 0x2029
    ||| u == 0x202f
    ||| u == 0x205f
    ||| u == 0x3000
}

pub fn white_space(c: char) -> (b: bool)
    ensures
        b == is_white_space(c),
{
    let u: u32 = c as u32;
    (0x09 <= u && u <= 0x0d) || u == 0x20 || u == 0x85 || u == 0xa0 || u == 0x1680 || (0x2000 <= u
        && u <= 0x200a) || u == 0x2028 || u == 0x2029 || u == 0x202f || u == 0x205f || u == 0x3000
}

/// `s` without its leading white space.
pub open spec fn trim_start(s: Seq<char>) -> Seq<char>
    decreases s.len(),
{
    if s.len() > 0 && is_white_space(s[0]) {
        trim_start(s.drop_first())
    } else {
        s
    }
}

/// `s` without its trailing white space.
pub open spec fn trim_end(s: Seq<char>) -> Seq<char>
    decreases s.len(),
{
    if s.len() > 0 && is_white_space(s.last()) {
        trim_end(s.drop_last())
    } else {
        s
    }
}

/// `s` without leading and trailing white space.
pub open spec fn trim(s: Seq<char>) -> Seq<char> {
    trim_end(trim_start(s))
}

/// Drops trailing white space.
pub fn trimmed_end(s: &str) -> (r: String)
    ensures
        r@ == trim_end(s@),
{
    let v = chars_of(s);
    let mut to: usize = v.len();
    assert(v@.take(v@.len() as int) =~= v@);
    while to > 0 && white_space(v[to - 1])
        invariant
            to <= v@.len(),
            trim_end(v@) == trim_end(v@.take(to as int)),
        decreases to,
    {
        assert(v@.take(to as int).drop_last() =~= v@.take(to - 1));
        to -= 1;
    }
    let r = string_of(&v, 0, to);
    assert(r@ =~= v@.take(to as int));
    r
}

/// Drops leading and trailing white space.
pub fn trimmed(s: &str) -> (r: String)
    ensures
        r@ == trim(s@),
{
    let v = chars_of(s);
    let mut from: usize = 0;
    assert(v@.skip(0) =~= v@);
    while from < v.len() && white_space(v[from])
        invariant
            from <= v@.len(),
            trim_start(v@) == trim_start(v@.skip(from as int)),
        decreases v@.len() - from,
    {
        assert(v@.skip(from as int).drop_first() =~= v@.skip(from + 1));
        from += 1;
    }
    let kept = string_of(&v, from, v.len());
    assert(kept@ =~= v@.skip(from as int));
    trimmed_end(kept.as_str())
}

/// A trimmed text neither starts nor ends with white space.
pub proof fn lemma_trim_is_tight(s: Seq<char>)
    ensures
        trim_end(s).len() > 0 ==> !is_white_space(trim_end(s).last()),
        trim_end(s).len() <= s.len(),
        trim_end(s) == s.take(trim_end(s).len() as int),
        trim(s).len() > 0 ==> !is_white_space(trim(s)[0]) && !is_white_space(trim(s).last()),
    decreases s.len(),
{
    lemma_trim_end_prefix(s);
    lemma_trim_start_head(s);
    lemma_trim_end_prefix(trim_start(s));
}

proof fn lemma_trim_end_prefix(s: Seq<char>)
    ensures
        trim_end(s).len() > 0 ==> !is_white_space(trim_end(s).last()),
        trim_end(s).len() <= s.len(),
        trim_end(s) == s.take(trim_end(s).len() as int),
    decreases s.len(),
{
    if s.len() > 0 && is_white_space(s.last()) {
        lemma_trim_end_prefix(s.drop_last());
    }
    assert(trim_end(s) =~= s.take(trim_end(s).len() as int));
}

proof fn lemma_trim_start_head(s: Seq<char>)
    ensures
        trim_start(s).len() > 0 ==> !is_white_space(trim_start(s)[0]),
    decreases s.len(),
{
    if s.len() > 0 && is_white_space(s[0]) {
        lemma_trim_start_head(s.drop_first());
    }
}

/// Index of the first `c` in `s`, or the length of `s` when there is none.
pub open spec fn position(s: Seq<char>, c: char) -> int
    decreases s.len(),
{
    if s.len() == 0 || s[0] == c {
        0
    } else {
        1 + position(s.drop_first(), c)
    }
}

pub proof fn lemma_position(s: Seq<char>, c: char)
    ensures
        0 <= position(s, c) <= s.len(),
        position(s, c) < s.len() ==> s[position(s, c)] == c,
        forall|i: int| 0 <= i < position(s, c) ==> s[i] != c,
    decreases s.len(),
{
    if s.len() > 0 && s[0] != c {
        lemma_position(s.drop_first(), c);
        let rest = s.drop_first();
        assert forall|i: int| 0 <= i < position(s, c) implies s[i] != c by {
            if i > 0 {
                assert(rest[i - 1] == s[i]);
            }
        }
    }
}

proof fn lemma_position_is(s: Seq<char>, c: char, at: int)
    requires
        0 <= at <= s.len(),
        at < s.len() ==> s[at] == c,
        forall|i: int| 0 <= i < at ==> s[i] != c,
    ensures
        position(s, c) == at,
    decreases s.len(),
{
    if at > 0 {
        assert(s[0] != c);
        assert forall|i: int| 0 <= i < at - 1 implies s.drop_first()[i] != c by {
            assert(s.drop_first()[i] == s[i + 1]);
        }
        lemma_position_is(s.drop_first(), c, at - 1);
    }
}

/// Index of the first `c` at or after `from`.
pub fn position_from(v: &Vec<char>, from: usize, c: char) -> (at: usize)
    requires
        from <= v@.len(),
    ensures
        at == from + position(v@.skip(from as int), c),
        from <= at <= v@.len(),
{
    let mut i: usize = from;
    while i < v.len() && v[i] != c
        invariant
            from <= i <= v@.len(),
            forall|k: int| from <= k < i ==> v@[k] != c,
        decreases v@.len() - i,
    {
        i += 1;
    }
    proof {
        lemma_position_is(v@.skip(from as int), c, i - from);
    }
    i
}

/// One line without the carriage return that precedes its line feed.
pub open spec fn strip_cr(s: Seq<char>) -> Seq<char> {
    if s.len() > 0 && s.last() == '\r' {
        s.drop_last()
    } else {
        s
    }
}

/// The lines of `s`: pieces ended by a line feed, the last one optionally
/// unended. A carriage return directly before a line feed is dropped.
pub open spec fn lines(s: Seq<char>) -> Seq<Seq<char>>
    decreases s.len(),
{
    if s.len() == 0 {
        Seq::empty()
    } else {
        let n = position(s, '\n');
        if 0 <= n < s.len() {
            seq![strip_cr(s.take(n))] + lines(s.skip(n + 1))
        } else {
            seq![s]
        }
    }
}

/// The lines of `s`.
pub fn lines_of(s: &str) -> (out: Vec<String>)
    ensures
        out.deep_view() == lines(s@),
{
    let v = chars_of(s);
    let mut out: Vec<String> = Vec::new();
    let mut pos: usize = 0;
    assert(v@.skip(0) =~= v@);
    assert(out.deep_view() + lines(v@) =~= lines(v@));
    while pos < v.len()
        invariant
            pos <= v@.len(),
            lines(v@) == out.deep_view() + lines(v@.skip(pos as int)),
        decreases v@.len() - pos,
    {
        let at = position_from(&v, pos, '\n');
        let ghost before = out.deep_view();
        let ghost rest = v@.skip(pos as int);
        if at < v.len() {
            let mut end: usize = at;
            assert(rest.take(at - pos) =~= v@.subrange(pos as int, at as int));
            if end > pos && v[end - 1] == '\r' {
                end -= 1;
            }
            let piece = string_of(&v, pos, end);
            assert(piece@ =~= strip_cr(rest.take(at - pos)));
            out.push(piece);
            assert(out.deep_view() =~= before.push(piece@));
            assert(rest.skip(at - pos + 1) =~= v@.skip(at + 1));
            assert(before + (seq![piece@] + lines(v@.skip(at + 1))) =~= out.deep_view() + lines(
                v@.skip(at + 1),
            ));
            pos = at + 1;
        } else {
            let piece = string_of(&v, pos, v.len());
            assert(piece@ =~= rest);
            out.push(piece);
            assert(out.deep_view() =~= before.push(piece@));
            pos = v.len();
            assert(v@.skip(pos as int) =~= Seq::empty());
            assert(before + seq![rest] =~= out.deep_view() + lines(v@.skip(pos as int)));
        }
    }
    assert(v@.skip(pos as int) =~= Seq::empty());
    assert(out.deep_view() + Seq::<Seq<char>>::empty() =~= out.deep_view());
    out
}

/// `parts` in order with `sep` between neighbours.
pub open spec fn join(parts: Seq<Seq<char>>, sep: Seq<char>) -> Seq<char>
    decreases parts.len(),
{
    if parts.len() == 0 {
        Seq::empty()
    } else if parts.len() == 1 {
        parts[0]
    } else {
        join(parts.drop_last(), sep) + sep + parts.last()
    }
}

/// Joins `parts` with `sep`.
pub fn joined(parts: &Vec<String>, sep: &str) -> (s: String)
    ensures
        s@ == join(parts.deep_view(), sep@),
{
    let mut s = String::new();
    let mut i: usize = 0;
    while i < parts.len()
        invariant
            i <= parts@.len(),
            s@ == join(parts.deep_view().take(i as int), sep@),
        decreases parts@.len() - i,
    {
        let ghost all = parts.deep_view();
        assert(all.take(i + 1).drop_last() =~= all.take(i as int));
        if i > 0 {
            s.append(sep);
        }
        s.append(parts[i].as_str());
        assert(i == 0 ==> s@ =~= all[0]);
        i += 1;
    }
    assert(parts.deep_view().take(i as int) =~= parts.deep_view());
    s
}

/// ASCII lowercase of a character; other characters stay as they are.
pub open spec fn ascii_lower(c: char) -> char {
    if 'A' <= c && c <= 'Z' {
        ((c as u32) + 32) as char
    } else {
        c
    }
}

/// ASCII lowercase of a text.
pub open spec fn lower(s: Seq<char>) -> Seq<char> {
    s.map_values(|c: char| ascii_lower(c))
}

/// Whether `c` is an ASCII letter or digit.
pub open spec fn is_ascii_alphanumeric(c: char) -> bool {
    ('0' <= c && c <= '9') || ('a' <= c && c <= 'z') || ('A' <= c && c <= 'Z')
}

pub fn ascii_alphanumeric(c: char) -> (b: bool)
    ensures
        b == is_ascii_alphanumeric(c),
{
    let u: u32 = c as u32;
    (0x30 <= u && u <= 0x39) || (0x61 <= u && u <= 0x7a) || (0x41 <= u && u <= 0x5a)
}

pub fn ascii_lower_char(c: char) -> (r: char)
    ensures
        r == ascii_lower(c),
{
    let u: u32 = c as u32;
    if 0x41 <= u && u <= 0x5a {
        let low: u8 = (u + 32) as u8;
        low as char
    } else {
        c
    }
}

/// ASCII lowercase of `s`.
pub fn lower_string(s: &str) -> (r: String)
    ensures
        r@ == lower(s@),
{
    let v = chars_of(s);
    let mut r = String::new();
    let mut i: usize = 0;
    while i < v.len()
        invariant
            i <= v@.len(),
            r@ == lower(v@).take(i as int),
        decreases v@.len() - i,
    {
        r.push(ascii_lower_char(v[i]));
        i += 1;
        assert(lower(v@).take(i as int) =~= lower(v@).take(i - 1).push(ascii_lower(v@[i - 1])));
    }
    assert(lower(v@).take(i as int) =~= lower(v@));
    r
}

/// Equality up to ASCII case.
pub fn eq_ignore_ascii_case(a: &str, b: &str) -> (r: bool)
    ensures
        r == (lower(a@) == lower(b@)),
{
    let x = lower_string(a);
    let y = lower_string(b);
    x == y
}

/// Equality of two texts.
pub fn same(a: &str, b: &str) -> (r: bool)
    ensures
        r == (a@ == b@),
{
    let x = a.to_owned();
    let y = b.to_owned();
    x == y
}

/// Whether `s` starts with `prefix`.
pub fn has_prefix(s: &str, prefix: &str) -> (r: bool)
    ensures
        r == prefix@.is_prefix_of(s@),
{
    let v = chars_of(s);
    let p = chars_of(prefix);
    prefix_at(&v, 0, &p)
}

/// Whether `p` stands in `v` at index `at`.
pub fn prefix_at(v: &Vec<char>, at: usize, p: &Vec<char>) -> (r: bool)
    requires
        at <= v@.len(),
    ensures
        r == p@.is_prefix_of(v@.skip(at as int)),
        at == 0 ==> r == p@.is_prefix_of(v@),
{
    assert(v@.skip(0) =~= v@);
    let n: usize = v.len();
    if n - at < p.len() {
        return false;
    }
    let mut i: usize = 0;
    while i < p.len()
        invariant
            i <= p@.len(),
            at <= n == v@.len(),
            p@.len() <= v@.len() - at,
            forall|k: int| 0 <= k < i ==> p@[k] == v@.skip(at as int)[k],
        decreases p@.len() - i,
    {
        if v[at + i] != p[i] {
            assert(v@.skip(at as int)[i as int] != p@[i as int]);
            assert(v@.skip(at as int).subrange(0, p@.len() as int)[i as int] != p@[i as int]);
            return false;
        }
        i += 1;
    }
    assert(p@ =~= v@.skip(at as int).subrange(0, p@.len() as int));
    true
}

/// Index of the first occurrence of `p` in `s`.
pub open spec fn find(s: Seq<char>, p: Seq<char>) -> Option<int>
    decreases s.len(),
{
    if p.is_prefix_of(s) {
        Some(0)
    } else if s.len() == 0 {
        None
    } else {
        match find(s.drop_first(), p) {
            Some(i) => Some(i + 1),
            None => None,
        }
    }
}

/// First occurrence of `p` in `v`.
pub fn find_in(v: &Vec<char>, p: &Vec<char>) -> (r: Option<usize>)
    ensures
        r.is_some() == find(v@, p@).is_some(),
        r.is_some() ==> r.unwrap() == find(v@, p@).unwrap() && r.unwrap() + p@.len() <= v@.len(),
{
    let mut i: usize = 0;
    assert(v@.skip(0) =~= v@);
    while i < v.len()
        invariant
            i <= v@.len(),
            find(v@, p@).is_some() == find(v@.skip(i as int), p@).is_some(),
            find(v@, p@).is_some() ==> find(v@, p@).unwrap() == i + find(
                v@.skip(i as int),
                p@,
            ).unwrap(),
        decreases v@.len() - i,
    {
        if prefix_at(v, i, p) {
            return Some(i);
        }
        assert(v@.skip(i as int).drop_first() =~= v@.skip(i + 1));
        i += 1;
    }
    if prefix_at(v, i, p) {
        Some(i)
    } else {
        None
    }
}

/// Whether `p` occurs in `s`.
pub open spec fn occurs(p: Seq<char>, s: Seq<char>) -> bool {
    find(s, p).is_some()
}

/// `p` occurs in `s` exactly when some window of `s` equals `p`.
pub proof fn lemma_occurs(p: Seq<char>, s: Seq<char>)
    ensures
        occurs(p, s) <==> exists|i: int| #![trigger s.skip(i)] 0 <= i <= s.len() && p.is_prefix_of(s.skip(i)),
    decreases s.len(),
{
    assert(s.skip(0) =~= s);
    if !p.is_prefix_of(s) && s.len() > 0 {
        let t = s.drop_first();
        lemma_occurs(p, t);
        if occurs(p, t) {
            let i = choose|i: int| #![trigger t.skip(i)] 0 <= i <= t.len() && p.is_prefix_of(t.skip(i));
            assert(t.skip(i) =~= s.skip(i + 1));
        }
        if exists|i: int| #![trigger s.skip(i)] 0 <= i <= s.len() && p.is_prefix_of(s.skip(i)) {
            let i = choose|i: int| #![trigger s.skip(i)] 0 <= i <= s.len() && p.is_prefix_of(s.skip(i));
            assert(i != 0);
            assert(t.skip(i - 1) =~= s.skip(i));
        }
    } else if s.len() == 0 {
        assert forall|i: int| #![trigger s.skip(i)] 0 <= i <= s.len() implies s.skip(i) == s by {
            assert(s.skip(i) =~= s);
        }
    }
}

/// Whether `s` contains `p`.
pub fn contains(s: &str, p: &str) -> (r: bool)
    ensures
        r == occurs(p@, s@),
{
    let v = chars_of(s);
    let w = chars_of(p);
    find_in(&v, &w).is_some()
}

/// Length of the UTF-8 encoding of a character.
pub open spec fn utf8_width(c: char) -> nat {
    let u = c as u32;
    if u < 0x80 {
        1
    } else if u < 0x800 {
        2
    } else if u < 0x1_0000 {
        3
    } else {
        4
    }
}

/// Length of the UTF-8 encoding of a text.
pub open spec fn byte_len(s: Seq<char>) -> nat
    decreases s.len(),
{
    if s.len() == 0 {
        0
    } else {
        byte_len(s.drop_last()) + utf8_width(s.last())
    }
}

/// Whether the first `n` characters of `v` take at most three bytes.
pub fn at_most_three_bytes(v: &Vec<char>, n: usize) -> (r: bool)
    requires
        n <= v@.len(),
    ensures
        r == (byte_len(v@.take(n as int)) <= 3),
{
    let mut total: usize = 0;
    let mut i: usize = 0;
    assert(v@.take(0) =~= Seq::empty());
    while i < n
        invariant
            i <= n <= v@.len(),
            total == byte_len(v@.take(i as int)),
            total <= 3,
        decreases n - i,
    {
        let u: u32 = v[i] as u32;
        let w: usize = if u < 0x80 {
            1
        } else if u < 0x800 {
            2
        } else if u < 0x1_0000 {
            3
        } else {
            4
        };
        assert(v@.take(i + 1).drop_last() =~= v@.take(i as int));
        total += w;
        i += 1;
        if total > 3 {
            proof {
                lemma_byte_len_grows(v@.take(n as int), i as int);
                assert(v@.take(n as int).take(i as int) =~= v@.take(i as int));
            }
            return false;
        }
    }
    true
}

proof fn lemma_byte_len_grows(s: Seq<char>, n: int)
    requires
        0 <= n <= s.len(),
    ensures
        byte_len(s.take(n)) <= byte_len(s),
    decreases s.len(),
{
    if n < s.len() {
        lemma_byte_len_grows(s.drop_last(), n);
        assert(s.drop_last().take(n) =~= s.take(n));
    } else {
        assert(s.take(n) =~= s);
    }
}

/// Whether every character of `s` is a decimal digit.
pub open spec fn all_digits(s: Seq<char>) -> bool {
    forall|i: int| 0 <= i < s.len() ==> '0' <= #[trigger] s[i] && s[i] <= '9'
}

/// Value of a sequence of decimal digits.
pub open spec fn digits_value(s: Seq<char>) -> nat
    decreases s.len(),
{
    if s.len() == 0 {
        0
    } else {
        digits_value(s.drop_last()) * 10 + ((s.last() as u32 - '0' as u32) as nat)
    }
}

/// The number that an optional `+` and at least one digit denote, when it fits
/// in 64 bits.
pub open spec fn parse_u64(s: Seq<char>) -> Option<u64> {
    let d = if s.len() > 0 && s[0] == '+' {
        s.skip(1)
    } else {
        s
    };
    if d.len() > 0 && all_digits(d) && digits_value(d) <= u64::MAX {
        Some(digits_value(d) as u64)
    } else {
        None
    }
}

proof fn lemma_digits_value_grows(s: Seq<char>, n: int)
    requires
        0 <= n <= s.len(),
        all_digits(s),
    ensures
        digits_value(s.take(n)) <= digits_value(s),
    decreases s.len(),
{
    if n < s.len() {
        assert(all_digits(s.drop_last()));
        lemma_digits_value_grows(s.drop_last(), n);
        assert(s.drop_last().take(n) =~= s.take(n));
    } else {
        assert(s.take(n) =~= s);
    }
}

fn digit_of(c: char) -> (r: Option<u64>)
    ensures
        r.is_some() == ('0' <= c && c <= '9'),
        r.is_some() ==> r.unwrap() == c as u32 - '0' as u32,
{
    let u: u32 = c as u32;
    if u < 0x30 || 0x39 < u {
        None
    } else {
        Some((u - 0x30) as u64)
    }
}

/// Parses an unsigned number.
pub fn parsed_u64(s: &str) -> (r: Option<u64>)
    ensures
        r == parse_u64(s@),
{
    let v = chars_of(s);
    let start: usize = if v.len() > 0 && v[0] == '+' {
        1
    } else {
        0
    };
    let ghost d = v@.skip(start as int);
    assert(v@.skip(0) =~= v@);
    if v.len() == start {
        return None;
    }
    let mut i: usize = start;
    let mut value: u64 = 0;
    let mut fits: bool = true;
    assert(d.take(0) =~= Seq::empty());
    while i < v.len()
        invariant
            start <= i <= v@.len(),
            d == v@.skip(start as int),
            d.len() > 0,
            parse_u64(s@) == (if d.len() > 0 && all_digits(d) && digits_value(d) <= u64::MAX {
                Some(digits_value(d) as u64)
            } else {
                None
            }),
            forall|k: int| 0 <= k < i - start ==> '0' <= #[trigger] d[k] && d[k] <= '9',
            fits ==> value == digits_value(d.take(i - start)),
            !fits ==> digits_value(d.take(i - start)) > u64::MAX,
        decreases v@.len() - i,
    {
        assert(d[i - start] == v@[i as int]);
        let n: u64 = match digit_of(v[i]) {
            Some(n) => n,
            None => {
                assert(!all_digits(d));
                return None;
            },
        };
        assert(d.take(i - start + 1).drop_last() =~= d.take(i - start));
        if fits {
            if value > (0xffff_ffff_ffff_ffff - n) / 10 {
                fits = false;
            } else {
                value = value * 10 + n;
            }
        }
        i += 1;
    }
    assert(d.take(i - start) =~= d);
    if fits {
        Some(value)
    } else {
        None
    }
}

/// A number is read back from its decimal digits.
pub proof fn lemma_decimal_round_trip(n: u64)
    ensures
        parse_u64(decimal(n as nat)) == Some(n),
{
    lemma_decimal_digits(n as nat);
}

proof fn lemma_decimal_digits(n: nat)
    ensures
        decimal(n).len() > 0,
        all_digits(decimal(n)),
        digits_value(decimal(n)) == n,
    decreases n,
{
    if n < 10 {
        let s = decimal(n);
        assert(s.drop_last() =~= Seq::empty());
        assert(digit(n) as u32 == 0x30 + n);
        reveal_with_fuel(digits_value, 2);
    } else {
        lemma_decimal_digits(n / 10);
        let s = decimal(n);
        assert(s.drop_last() =~= decimal(n / 10));
        assert(digit(n % 10) as u32 == 0x30 + n % 10);
        assert forall|i: int| 0 <= i < s.len() implies '0' <= #[trigger] s[i] && s[i] <= '9' by {
            if i < s.len() - 1 {
                assert(s[i] == decimal(n / 10)[i]);
            }
        }
    }
}

/// Whether a text holds another, unbroken.
pub open spec fn within(p: Seq<char>, s: Seq<char>) -> bool {
    exists|a: Seq<char>, b: Seq<char>| s == #[trigger] (a + p + b)
}

/// What a part of a text holds, the text holds.
pub proof fn lemma_within_chains(p: Seq<char>, q: Seq<char>, s: Seq<char>)
    requires
        within(p, q),
        within(q, s),
    ensures
        within(p, s),
{
    let (a, b) = choose|a: Seq<char>, b: Seq<char>| q == #[trigger] (a + p + b);
    let (c, d) = choose|c: Seq<char>, d: Seq<char>| s == #[trigger] (c + q + d);
    assert(s =~= (c + a) + p + (b + d));
}

/// Parts joined in two groups are joined as one.
pub proof fn lemma_join_adds(x: Seq<Seq<char>>, y: Seq<Seq<char>>, sep: Seq<char>)
    requires
        x.len() > 0,
        y.len() > 0,
    ensures
        join(x + y, sep) == join(x, sep) + sep + join(y, sep),
    decreases y.len(),
{
    let all = x + y;
    if y.len() == 1 {
        assert(all.drop_last() =~= x);
    } else {
        let rest = y.drop_last();
        assert(all.drop_last() =~= x + rest);
        lemma_join_adds(x, rest, sep);
        assert(all.last() == y.last());
        assert(join(all, sep) =~= join(x, sep) + sep + join(y, sep));
    }
}

/// Neighbours among joined parts stand together in the text.
pub proof fn lemma_joined_parts_are_within(
    a: Seq<Seq<char>>,
    mid: Seq<Seq<char>>,
    b: Seq<Seq<char>>,
    sep: Seq<char>,
)
    requires
        mid.len() > 0,
    ensures
        within(join(mid, sep), join(a + mid + b, sep)),
{
    let m = join(mid, sep);
    let front = if a.len() > 0 {
        join(a, sep) + sep
    } else {
        Seq::empty()
    };
    let back = if b.len() > 0 {
        sep + join(b, sep)
    } else {
        Seq::empty()
    };
    if a.len() > 0 {
        lemma_join_adds(a, mid, sep);
    } else {
        assert(a + mid =~= mid);
    }
    assert(join(a + mid, sep) =~= front + m);
    if b.len() > 0 {
        lemma_join_adds(a + mid, b, sep);
    } else {
        assert(a + mid + b =~= a + mid);
    }
    assert(join(a + mid + b, sep) =~= front + m + back);
}

/// The lines of a text hold no line feed, and a line in front of a text is the
/// first of its lines.
pub proof fn lemma_lines_end_at_line_feeds(line: Seq<char>, rest: Seq<char>)
    requires
        !line.contains('\n'),
    ensures
        line.len() > 0 ==> lines(line) == seq![line],
        lines(line + seq!['\n'] + rest) == seq![strip_cr(line)] + lines(rest),
{
    if line.len() > 0 {
        lemma_position(line, '\n');
        let n = position(line, '\n');
        if n < line.len() {
            assert(line[n] == '\n');
        }
    }
    let whole = line + seq!['\n'] + rest;
    lemma_position(whole, '\n');
    let n = position(whole, '\n');
    assert(whole[line.len() as int] == '\n');
    if n < line.len() {
        assert(whole[n] == line[n]);
        assert(line.contains('\n'));
    }
    assert(n == line.len());
    assert(whole.take(n) =~= line);
    assert(whole.skip(n + 1) =~= rest);
}


} // verus!
