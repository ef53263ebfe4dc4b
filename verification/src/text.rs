//! Strings as sequences of characters: comparing, searching, splitting, and
//! writing and reading decimal numbers.

use vstd::prelude::*;
use vstd::string::*;

verus! {

broadcast use vstd::seq::group_seq_axioms;

// ── Trusted facts about std ──

/// `String::push` appends one character to the end of the string.
pub assume_specification[ String::push ](s: &mut String, c: char)
    ensures
        final(s)@ == old(s)@.push(c),
;

/// What `str::to_lowercase` makes of a text: Unicode lowercasing, in which a
/// character can become several and a final sigma depends on its neighbours.
pub uninterp spec fn lowercase(text: Seq<char>) -> Seq<char>;

/// `str::to_lowercase` is a function of the text alone. On ASCII text it maps
/// the letters `A` to `Z` and leaves every other character as it is.
pub assume_specification[ str::to_lowercase ](s: &str) -> (res: String)
    ensures
        res@ == lowercase(s@),
        vstd::utf8::is_ascii_chars(s@) ==> res@ == ascii_lower(s@),
;

/// What `str::to_uppercase` makes of a text: Unicode uppercasing, in which a
/// character can become several.
pub uninterp spec fn uppercase(text: Seq<char>) -> Seq<char>;

/// `str::to_uppercase` is a function of the text alone. On ASCII text it maps
/// the letters `a` to `z` and leaves every other character as it is.
pub assume_specification[ str::to_uppercase ](s: &str) -> (res: String)
    ensures
        res@ == uppercase(s@),
        vstd::utf8::is_ascii_chars(s@) ==> res@ == ascii_upper(s@),
;

/// `char::is_whitespace` tells whether a character has the Unicode property
/// `White_Space`: the code points that [`white_space`] lists.
pub assume_specification[ char::is_whitespace ](c: char) -> (res: bool)
    ensures
        res == white_space(c),
;

// ── Characters ──

pub open spec fn white_space(c: char) -> bool {
    let n = c as u32;
    ||| 0x9 <= n <= 0xd
    ||| n == 0x20
    ||| n == 0x85
    ||| n == 0xa0
    ||| n == 0x1680
    ||| 0x2000 <= n <= 0x200a
    ||| n == 0x2028
    ||| n == 0x2029
    ||| n == 0x202f
    ||| n == 0x205f
    ||| n == 0x3000
}

pub open spec fn ascii_lower_char(c: char) -> char {
    if 'A' <= c <= 'Z' {
        ((c as u8) + 32) as char
    } else {
        c
    }
}

pub open spec fn ascii_upper_char(c: char) -> char {
    if 'a' <= c <= 'z' {
        ((c as u8) - 32) as char
    } else {
        c
    }
}

/// The text with the letters `A` to `Z` in lower case.
pub open spec fn ascii_lower(s: Seq<char>) -> Seq<char> {
    s.map_values(|c: char| ascii_lower_char(c))
}

/// The text with the letters `a` to `z` in upper case.
pub open spec fn ascii_upper(s: Seq<char>) -> Seq<char> {
    s.map_values(|c: char| ascii_upper_char(c))
}

/// Whether there is nothing but white space in the text.
pub open spec fn blank(s: Seq<char>) -> bool {
    forall|i: int| 0 <= i < s.len() ==> white_space(#[trigger] s[i])
}

// ── Searching ──

pub open spec fn occurs_at(s: Seq<char>, p: Seq<char>, i: int) -> bool {
    &&& 0 <= i
    &&& i + p.len() <= s.len()
    &&& s.subrange(i, i + p.len()) == p
}

/// `p` stands somewhere in `s`.
pub open spec fn occurs(s: Seq<char>, p: Seq<char>) -> bool {
    exists|i: int| occurs_at(s, p, i)
}

/// `i` is the first place at which `p` stands in `s`.
pub open spec fn first_at(s: Seq<char>, p: Seq<char>, i: int) -> bool {
    &&& occurs_at(s, p, i)
    &&& forall|j: int| 0 <= j < i ==> !occurs_at(s, p, j)
}

/// The pieces of `s` between the separators, empty ones included.
pub open spec fn split_on(s: Seq<char>, sep: char) -> Seq<Seq<char>>
    decreases s.len(),
{
    if s.len() == 0 {
        seq![Seq::<char>::empty()]
    } else {
        let before = split_on(s.drop_last(), sep);
        if s.last() == sep {
            before.push(Seq::<char>::empty())
        } else {
            before.update(before.len() - 1, before.last().push(s.last()))
        }
    }
}

/// The parts, with `sep` between each two.
pub open spec fn joined(parts: Seq<Seq<char>>, sep: Seq<char>) -> Seq<char>
    decreases parts.len(),
{
    if parts.len() == 0 {
        Seq::<char>::empty()
    } else if parts.len() == 1 {
        parts[0]
    } else {
        joined(parts.drop_last(), sep) + sep + parts.last()
    }
}

/// The text of every string in the list.
pub open spec fn texts(list: Seq<String>) -> Seq<Seq<char>> {
    list.map_values(|s: String| s@)
}

/// The text of a string, where there is one.
pub open spec fn optional(s: Option<String>) -> Option<Seq<char>> {
    match s {
        Some(s) => Some(s@),
        None => None,
    }
}

// ── Numbers ──

pub open spec fn digit(d: nat) -> char {
    (('0' as u32) + d) as char
}

/// A natural number in decimal notation.
pub open spec fn decimal(n: nat) -> Seq<char>
    decreases n,
{
    if n < 10 {
        seq![digit(n)]
    } else {
        decimal(n / 10).push(digit(n % 10))
    }
}

/// An integer in decimal notation.
pub open spec fn decimal_int(n: int) -> Seq<char> {
    if n < 0 {
        seq!['-'] + decimal((-n) as nat)
    } else {
        decimal(n as nat)
    }
}

pub open spec fn all_digits(s: Seq<char>) -> bool {
    forall|i: int| 0 <= i < s.len() ==> '0' <= #[trigger] s[i] <= '9'
}

/// The number that a row of decimal digits writes.
pub open spec fn digits_value(s: Seq<char>) -> nat
    decreases s.len(),
{
    if s.len() == 0 {
        0
    } else {
        digits_value(s.drop_last()) * 10 + ((s.last() as u32) - ('0' as u32)) as nat
    }
}

/// The digits after an optional `+`.
pub open spec fn unsigned_digits(s: Seq<char>) -> Seq<char> {
    if s.len() > 0 && s[0] == '+' {
        s.drop_first()
    } else {
        s
    }
}

/// The port number that a text writes: an optional `+` and then only digits, at
/// least one, of a value that fits.
pub open spec fn port_value(s: Seq<char>) -> Option<u16> {
    let digits = unsigned_digits(s);
    if digits.len() > 0 && all_digits(digits) && digits_value(digits) <= u16::MAX {
        Some(digits_value(digits) as u16)
    } else {
        None
    }
}

// ── Order ──

/// Dictionary order by code point: `a` does not come after `b`.
pub open spec fn in_order(a: Seq<char>, b: Seq<char>) -> bool
    decreases a.len(),
{
    if a.len() == 0 {
        true
    } else if b.len() == 0 {
        false
    } else if a[0] != b[0] {
        a[0] < b[0]
    } else {
        in_order(a.drop_first(), b.drop_first())
    }
}

/// Every text of the list comes in dictionary order.
pub open spec fn sorted_texts(list: Seq<Seq<char>>) -> bool {
    forall|i: int, j: int| 0 <= i <= j < list.len() ==> in_order(#[trigger] list[i], #[trigger] list[j])
}

// ── Executable helpers ──

/// Whether two texts are equal.
pub fn same(a: &str, b: &str) -> (r: bool)
    ensures
        r == (a@ == b@),
{
    a.to_owned() == b.to_owned()
}

/// The characters of a text.
pub fn chars_of(s: &str) -> (r: Vec<char>)
    ensures
        r@ == s@,
{
    let mut out: Vec<char> = Vec::new();
    for c in it: s.chars()
        invariant
            out@ == it.seq().take(it.index() as int),
            it.seq() == s@,
    {
        out.push(c);
    }
    out
}

/// The text made of `v[from..to]`.
pub fn text_of(v: &Vec<char>, from: usize, to: usize) -> (r: String)
    requires
        from <= to <= v@.len(),
    ensures
        r@ == v@.subrange(from as int, to as int),
{
    let mut out = String::new();
    let mut i: usize = from;
    while i < to
        invariant
            from <= i <= to <= v@.len(),
            out@ == v@.subrange(from as int, i as int),
        decreases to - i,
    {
        out.push(v[i]);
        i += 1;
        assert(v@.subrange(from as int, i as int) =~= v@.subrange(from as int, i - 1).push(
            v@[i - 1],
        ));
    }
    out
}

/// One text after another.
pub fn cat(a: &str, b: &str) -> (r: String)
    ensures
        r@ == a@ + b@,
{
    let mut out = a.to_owned();
    out.append(b);
    out
}

/// Three texts in a row.
pub fn cat3(a: &str, b: &str, c: &str) -> (r: String)
    ensures
        r@ == a@ + b@ + c@,
{
    let mut out = a.to_owned();
    out.append(b);
    out.append(c);
    out
}

/// Whether there is nothing but white space in the text.
pub fn is_blank(s: &str) -> (r: bool)
    ensures
        r == blank(s@),
{
    let v = chars_of(s);
    let mut i: usize = 0;
    while i < v.len()
        invariant
            v@ == s@,
            i <= v@.len(),
            forall|j: int| 0 <= j < i ==> white_space(#[trigger] v@[j]),
        decreases v@.len() - i,
    {
        if !v[i].is_whitespace() {
            return false;
        }
        i += 1;
    }
    true
}

/// The text with the letters `A` to `Z` in lower case.
pub fn to_ascii_lower(s: &str) -> (r: String)
    ensures
        r@ == ascii_lower(s@),
{
    let v = chars_of(s);
    let mut out = String::new();
    let mut i: usize = 0;
    while i < v.len()
        invariant
            v@ == s@,
            i <= v@.len(),
            out@ == ascii_lower(v@.take(i as int)),
        decreases v@.len() - i,
    {
        let c = v[i];
        let lower = if 'A' <= c && c <= 'Z' {
            ((c as u8) + 32) as char
        } else {
            c
        };
        out.push(lower);
        i += 1;
        assert(ascii_lower(v@.take(i as int)) =~= ascii_lower(v@.take(i - 1)).push(
            ascii_lower_char(v@[i - 1]),
        ));
    }
    assert(v@.take(i as int) =~= s@);
    out
}

/// Whether two texts are equal but for the case of ASCII letters.
pub fn same_ignoring_ascii_case(a: &str, b: &str) -> (r: bool)
    ensures
        r == (ascii_lower(a@) == ascii_lower(b@)),
{
    to_ascii_lower(a) == to_ascii_lower(b)
}

/// Whether `p` stands in `v` at position `i`.
pub fn stands_at(v: &Vec<char>, p: &Vec<char>, i: usize) -> (r: bool)
    requires
        i <= v@.len(),
    ensures
        r == occurs_at(v@, p@, i as int),
{
    if v.len() - i < p.len() {
        return false;
    }
    let mut k: usize = 0;
    while k < p.len()
        invariant
            i + p.len() <= v.len(),
            k <= p@.len(),
            forall|j: int| 0 <= j < k ==> v@[i + j] == p@[j],
        decreases p@.len() - k,
    {
        if v[i + k] != p[k] {
            assert(v@.subrange(i as int, i + p@.len())[k as int] != p@[k as int]);
            return false;
        }
        k += 1;
    }
    assert(v@.subrange(i as int, i + p@.len()) =~= p@);
    true
}

/// The first place at which `p` stands in `v`.
pub fn find(v: &Vec<char>, p: &Vec<char>) -> (r: Option<usize>)
    ensures
        match r {
            Some(i) => first_at(v@, p@, i as int),
            None => !occurs(v@, p@),
        },
{
    let mut i: usize = 0;
    while i < v.len()
        invariant
            i <= v@.len(),
            forall|j: int| 0 <= j < i ==> !occurs_at(v@, p@, j),
        decreases v@.len() - i,
    {
        if stands_at(v, p, i) {
            return Some(i);
        }
        i += 1;
    }
    if stands_at(v, p, i) {
        return Some(i);
    }
    None
}

/// Whether `p` stands somewhere in `s`.
pub fn contains(s: &str, p: &str) -> (r: bool)
    ensures
        r == occurs(s@, p@),
{
    find(&chars_of(s), &chars_of(p)).is_some()
}

/// Whether `s` begins with `p`.
pub fn starts_with(s: &str, p: &str) -> (r: bool)
    ensures
        r == p@.is_prefix_of(s@),
{
    let r = stands_at(&chars_of(s), &chars_of(p), 0);
    proof {
        if p@.is_prefix_of(s@) {
            assert(s@.subrange(0, p@.len() as int) =~= p@);
        }
    }
    r
}

/// The text of every piece.
pub fn split(s: &str, sep: char) -> (r: Vec<String>)
    ensures
        texts(r@) == split_on(s@, sep),
        r@.len() >= 1,
{
    let v = chars_of(s);
    let mut out: Vec<String> = Vec::new();
    let mut piece = String::new();
    let mut i: usize = 0;
    proof {
        assert(texts(out@).push(piece@) =~= split_on(v@.take(0), sep));
    }
    while i < v.len()
        invariant
            v@ == s@,
            i <= v@.len(),
            texts(out@).push(piece@) == split_on(v@.take(i as int), sep),
        decreases v@.len() - i,
    {
        let c = v[i];
        let ghost before = texts(out@).push(piece@);
        proof {
            assert(v@.take(i + 1).drop_last() =~= v@.take(i as int));
            assert(v@.take(i + 1).last() == c);
        }
        if c == sep {
            let done = piece;
            piece = String::new();
            out.push(done);
            assert(texts(out@) =~= before);
        } else {
            piece.push(c);
            assert(texts(out@).push(piece@) =~= before.update(
                before.len() - 1,
                before.last().push(c),
            ));
        }
        i += 1;
    }
    out.push(piece);
    assert(v@.take(i as int) =~= s@);
    assert(texts(out@) =~= split_on(s@, sep));
    out
}

/// The parts, with `sep` between each two.
pub fn join(parts: &Vec<String>, sep: &str) -> (r: String)
    ensures
        r@ == joined(texts(parts@), sep@),
{
    let mut out = String::new();
    let mut i: usize = 0;
    while i < parts.len()
        invariant
            i <= parts@.len(),
            out@ == joined(texts(parts@).take(i as int), sep@),
        decreases parts@.len() - i,
    {
        let ghost list = texts(parts@);
        proof {
            assert(list.take(i + 1).drop_last() =~= list.take(i as int));
            assert(list.take(i + 1).last() == parts@[i as int]@);
        }
        if i == 0 {
            out = parts[0].clone();
        } else {
            out.append(sep);
            out.append(parts[i].as_str());
        }
        i += 1;
    }
    assert(texts(parts@).take(i as int) =~= texts(parts@));
    out
}

/// A natural number in decimal notation.
pub fn write_u64(n: u64) -> (r: String)
    ensures
        r@ == decimal(n as nat),
    decreases n,
{
    let last = (('0' as u8) + ((n % 10) as u8)) as char;
    let mut out = if n < 10 {
        String::new()
    } else {
        write_u64(n / 10)
    };
    out.push(last);
    assert(n < 10 ==> out@ =~= seq![digit(n as nat)]);
    out
}

/// An integer in decimal notation.
pub fn write_i64(n: i64) -> (r: String)
    ensures
        r@ == decimal_int(n as int),
{
    if n < 0 {
        let magnitude: u64 = if n == i64::MIN {
            0x8000_0000_0000_0000
        } else {
            (-n) as u64
        };
        let mut out = String::new();
        out.push('-');
        out.append(write_u64(magnitude).as_str());
        assert(out@ =~= seq!['-'] + decimal((-n) as nat));
        out
    } else {
        write_u64(n as u64)
    }
}

proof fn lemma_digits_grow(s: Seq<char>, k: int)
    requires
        0 <= k <= s.len(),
        all_digits(s),
    ensures
        digits_value(s.take(k)) <= digits_value(s),
    decreases s.len() - k,
{
    if k == s.len() {
        assert(s.take(k) =~= s);
    } else {
        lemma_digits_grow(s, k + 1);
        assert(s.take(k + 1).drop_last() =~= s.take(k));
    }
}

/// The port number that a text writes.
pub fn parse_port(s: &str) -> (r: Option<u16>)
    ensures
        r == port_value(s@),
{
    let v = chars_of(s);
    let start: usize = if v.len() > 0 && v[0] == '+' {
        1
    } else {
        0
    };
    let ghost digits = unsigned_digits(s@);
    assert(digits =~= v@.skip(start as int));
    if v.len() == start {
        return None;
    }
    let mut value: u32 = 0;
    let mut i: usize = start;
    proof {
        assert(digits.take(0) =~= Seq::<char>::empty());
    }
    while i < v.len()
        invariant
            v@ == s@,
            start <= i <= v@.len(),
            digits == v@.skip(start as int),
            digits == unsigned_digits(s@),
            digits.len() > 0,
            value <= 0xffff,
            all_digits(digits.take(i - start)),
            value == digits_value(digits.take(i - start)),
        decreases v@.len() - i,
    {
        let c = v[i];
        let ghost k = i - start;
        assert(digits[k] == c);
        if !('0' <= c && c <= '9') {
            assert(!all_digits(digits));
            return None;
        }
        value = value * 10 + ((c as u32) - ('0' as u32));
        proof {
            assert(digits.take(k + 1).drop_last() =~= digits.take(k));
            assert(all_digits(digits.take(k + 1))) by {
                assert forall|j: int| 0 <= j < k + 1 implies '0' <= #[trigger] digits.take(
                    k + 1,
                )[j] <= '9' by {
                    if j < k {
                        assert(digits.take(k)[j] == digits[j]);
                    }
                }
            }
        }
        if value > 0xffff {
            proof {
                if all_digits(digits) {
                    lemma_digits_grow(digits, k + 1);
                }
            }
            return None;
        }
        i += 1;
    }
    assert(digits.take(i - start) =~= digits);
    Some(value as u16)
}

// ── Dictionary order ──

pub proof fn lemma_in_order_reflexive(a: Seq<char>)
    ensures
        in_order(a, a),
    decreases a.len(),
{
    if a.len() > 0 {
        lemma_in_order_reflexive(a.drop_first());
    }
}

pub proof fn lemma_in_order_total(a: Seq<char>, b: Seq<char>)
    ensures
        in_order(a, b) || in_order(b, a),
    decreases a.len(),
{
    if a.len() > 0 && b.len() > 0 && a[0] == b[0] {
        lemma_in_order_total(a.drop_first(), b.drop_first());
    }
}

pub proof fn lemma_in_order_transitive(a: Seq<char>, b: Seq<char>, c: Seq<char>)
    requires
        in_order(a, b),
        in_order(b, c),
    ensures
        in_order(a, c),
    decreases a.len(),
{
    if a.len() > 0 && b.len() > 0 && c.len() > 0 && a[0] == b[0] && b[0] == c[0] {
        lemma_in_order_transitive(a.drop_first(), b.drop_first(), c.drop_first());
    }
}

fn in_order_from(a: &Vec<char>, b: &Vec<char>, i: usize) -> (r: bool)
    requires
        i <= a@.len(),
        i <= b@.len(),
    ensures
        r == in_order(a@.skip(i as int), b@.skip(i as int)),
    decreases a@.len() - i,
{
    let ghost left = a@.skip(i as int);
    let ghost right = b@.skip(i as int);
    if i == a.len() {
        true
    } else if i == b.len() {
        false
    } else if a[i] != b[i] {
        assert(left[0] == a@[i as int] && right[0] == b@[i as int]);
        a[i] < b[i]
    } else {
        proof {
            assert(left[0] == a@[i as int] && right[0] == b@[i as int]);
            assert(left.drop_first() =~= a@.skip(i + 1));
            assert(right.drop_first() =~= b@.skip(i + 1));
        }
        in_order_from(a, b, i + 1)
    }
}

/// Whether `a` does not come after `b` in dictionary order.
pub fn comes_in_order(a: &str, b: &str) -> (r: bool)
    ensures
        r == in_order(a@, b@),
{
    let left = chars_of(a);
    let right = chars_of(b);
    assert(left@.skip(0) =~= a@);
    assert(right@.skip(0) =~= b@);
    in_order_from(&left, &right, 0)
}

/// Where `x` goes in a list that is in order: behind everything that does not
/// come after it.
proof fn lemma_inserted_in_order(list: Seq<Seq<char>>, x: Seq<char>, at: int)
    requires
        sorted_texts(list),
        0 <= at <= list.len(),
        forall|j: int| 0 <= j < at ==> in_order(#[trigger] list[j], x),
        at < list.len() ==> !in_order(list[at], x),
    ensures
        sorted_texts(list.insert(at, x)),
        list.insert(at, x).to_multiset() == list.to_multiset().insert(x),
{
    broadcast use vstd::seq_lib::group_to_multiset_ensures;
    broadcast use vstd::multiset::group_multiset_axioms;

    let out = list.insert(at, x);
    assert forall|i: int, j: int| 0 <= i <= j < out.len() implies in_order(
        #[trigger] out[i],
        #[trigger] out[j],
    ) by {
        lemma_in_order_reflexive(x);
        if at < list.len() {
            lemma_in_order_total(list[at], x);
        }
        if i == at && j > at {
            assert(in_order(list[at], list[j - 1]));
            lemma_in_order_transitive(x, list[at], list[j - 1]);
        }
    }
    assert(out.remove(at) =~= list);
    assert(out[at] == x);
    assert(out.to_multiset().count(x) > 0);
    assert(out.to_multiset() =~= out.to_multiset().remove(x).insert(x));
}

/// The place behind every text that does not come after `x`.
pub fn place_in_order(list: &Vec<String>, x: &str) -> (at: usize)
    requires
        sorted_texts(texts(list@)),
    ensures
        at <= list@.len(),
        sorted_texts(texts(list@).insert(at as int, x@)),
        texts(list@).insert(at as int, x@).to_multiset() == texts(list@).to_multiset().insert(x@),
{
    let mut at: usize = 0;
    while at < list.len() && comes_in_order(list[at].as_str(), x)
        invariant
            at <= list@.len(),
            forall|j: int| 0 <= j < at ==> in_order(#[trigger] texts(list@)[j], x@),
        decreases list@.len() - at,
    {
        at += 1;
    }
    proof {
        lemma_inserted_in_order(texts(list@), x@, at as int);
    }
    at
}

// ── Laws ──

/// A number reads back from its decimal notation, which is digits throughout.
pub proof fn law_a_number_reads_back(n: nat)
    ensures
        decimal(n).len() > 0,
        all_digits(decimal(n)),
        digits_value(decimal(n)) == n,
    decreases n,
{
    if n < 10 {
        let s = decimal(n);
        assert(s.drop_last() =~= Seq::empty());
        assert(digits_value(s.drop_last()) == 0);
    } else {
        law_a_number_reads_back(n / 10);
        let s = decimal(n);
        assert(s.drop_last() =~= decimal(n / 10));
    }
}

/// Two integers that are written alike are the same integer.
pub proof fn law_integers_are_written_apart(a: int, b: int)
    requires
        decimal_int(a) == decimal_int(b),
    ensures
        a == b,
{
    law_a_number_reads_back(if a < 0 { (-a) as nat } else { a as nat });
    law_a_number_reads_back(if b < 0 { (-b) as nat } else { b as nat });
    if a < 0 {
        assert(decimal_int(a)[0] == '-');
        assert(decimal_int(a).drop_first() =~= decimal((-a) as nat));
    }
    if b < 0 {
        assert(decimal_int(b)[0] == '-');
        assert(decimal_int(b).drop_first() =~= decimal((-b) as nat));
    }
    if (a < 0) != (b < 0) {
        let positive = decimal(if a < 0 { b as nat } else { a as nat });
        assert('0' <= positive[0] <= '9');
    }
}

/// What stands before and after the last occurrence of a character is settled by
/// the whole text.
pub proof fn lemma_last_occurrence(
    a: Seq<char>,
    x: Seq<char>,
    b: Seq<char>,
    y: Seq<char>,
    c: char,
)
    requires
        a.push(c) + x == b.push(c) + y,
        !x.contains(c),
        !y.contains(c),
    ensures
        a == b,
        x == y,
{
    let (ac, bc) = (a.push(c), b.push(c));
    let (whole, other) = (ac + x, bc + y);
    assert(whole.len() == a.len() + 1 + x.len());
    assert(other.len() == b.len() + 1 + y.len());
    assert(whole[a.len() as int] == ac[a.len() as int]);
    assert(other[b.len() as int] == bc[b.len() as int]);
    if a.len() > b.len() {
        assert(other[a.len() as int] == y[a.len() - bc.len()]);
    }
    if b.len() > a.len() {
        assert(whole[b.len() as int] == x[b.len() - ac.len()]);
    }
    assert forall|i: int| 0 <= i < a.len() implies a[i] == b[i] by {
        assert(whole[i] == ac[i] && other[i] == bc[i]);
    }
    assert forall|i: int| 0 <= i < x.len() implies x[i] == y[i] by {
        assert(whole[ac.len() + i] == x[i] && other[bc.len() + i] == y[i]);
    }
    assert(a =~= b);
    assert(x =~= y);
}

/// Without a separator in it, a text is one piece; and what stands before and behind a
/// separator is split apart there.
pub proof fn law_pieces_end_at_the_separator(head: Seq<char>, tail: Seq<char>, sep: char)
    requires
        !tail.contains(sep),
    ensures
        split_on(tail, sep) == seq![tail],
        split_on(head.push(sep) + tail, sep) == split_on(head, sep).push(tail),
    decreases tail.len(),
{
    let whole = head.push(sep) + tail;
    if tail.len() == 0 {
        assert(whole =~= head.push(sep));
        assert(head.push(sep).drop_last() =~= head);
        assert(tail =~= Seq::<char>::empty());
    } else {
        let shorter = tail.drop_last();
        assert(!shorter.contains(sep)) by {
            if shorter.contains(sep) {
                let w = choose|w: int| 0 <= w < shorter.len() && shorter[w] == sep;
                assert(tail[w] == sep);
            }
        }
        law_pieces_end_at_the_separator(head, shorter, sep);
        assert(tail[tail.len() - 1] == tail.last());
        assert(tail.last() != sep);
        assert(whole.drop_last() =~= head.push(sep) + shorter);
        assert(shorter.push(tail.last()) =~= tail);
        let before = split_on(head, sep).push(shorter);
        assert(before.update(before.len() - 1, before.last().push(tail.last())) =~= split_on(
            head,
            sep,
        ).push(tail));
        assert(seq![shorter].update(0, shorter.push(tail.last())) =~= seq![tail]);
    }
}

/// White space says nothing, however much of it there is; any other character does.
pub proof fn law_what_is_blank(s: Seq<char>, c: char)
    ensures
        blank(Seq::<char>::empty()),
        blank(s) ==> blank(s.push(' ')),
        !blank(s) ==> !blank(s.push(' ')),
        !white_space(c) ==> !blank(s.push(c)),
{
    if !white_space(c) {
        assert(s.push(c)[s.len() as int] == c);
    }
    if !blank(s) {
        let w = choose|w: int| 0 <= w < s.len() && !white_space(#[trigger] s[w]);
        assert(s.push(' ')[w] == s[w]);
    }
}

} // verus!
