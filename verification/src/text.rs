//! Small verified building blocks for text: every function states its result
//! over the sequence of characters that a string holds.

use vstd::prelude::*;
use crate::outside::push_char;

verus! {

/// The characters of an optional string.
pub open spec fn opt_view(o: Option<String>) -> Option<Seq<char>> {
    match o {
        Some(s) => Some(s@),
        None => None,
    }
}

/// The characters of each string of a list.
pub open spec fn strings_view(v: Seq<String>) -> Seq<Seq<char>> {
    Seq::new(v.len(), |i: int| v[i]@)
}

/// The decimal digit that stands for `d`, for `d` below ten.
pub open spec fn digit_char(d: nat) -> char {
    if d == 0 {
        '0'
    } else if d == 1 {
        '1'
    } else if d == 2 {
        '2'
    } else if d == 3 {
        '3'
    } else if d == 4 {
        '4'
    } else if d == 5 {
        '5'
    } else if d == 6 {
        '6'
    } else if d == 7 {
        '7'
    } else if d == 8 {
        '8'
    } else {
        '9'
    }
}

/// A number written in base ten, without sign or leading zeros.
pub open spec fn decimal(n: nat) -> Seq<char>
    decreases n,
{
    if n < 10 {
        seq![digit_char(n)]
    } else {
        decimal(n / 10).push(digit_char(n % 10))
    }
}

/// Appends a string slice to a string.
pub fn push_text(s: &mut String, t: &str)
    ensures
        final(s)@ == old(s)@ + t@,
{
    s.append(t);
}

/// Whether two string slices hold the same characters.
pub fn same_text(a: &str, b: &str) -> (r: bool)
    ensures
        r == (a@ == b@),
{
    let x = a.as_bytes();
    let y = b.as_bytes();
    if x.len() != y.len() {
        return false;
    }
    let mut i: usize = 0;
    while i < x.len()
        invariant
            x@ == vstd::utf8::encode_utf8(a@),
            y@ == vstd::utf8::encode_utf8(b@),
            x@.len() == y@.len(),
            i <= x@.len(),
            forall|j: int| 0 <= j < i ==> x@[j] == y@[j],
        decreases x@.len() - i,
    {
        if x[i] != y[i] {
            return false;
        }
        i += 1;
    }
    proof {
        assert(x@ =~= y@);
        vstd::utf8::encode_utf8_decode_utf8(a@);
        vstd::utf8::encode_utf8_decode_utf8(b@);
    }
    true
}

/// A copy of an optional string.
pub fn clone_opt(o: &Option<String>) -> (r: Option<String>)
    ensures
        opt_view(r) == opt_view(*o),
{
    match o {
        Some(s) => Some(s.clone()),
        None => None,
    }
}

/// The characters of a string, as a vector.
pub fn chars_of(s: &str) -> (v: Vec<char>)
    ensures
        v@ == s@,
{
    broadcast use vstd::string::group_string_axioms;

    let mut v: Vec<char> = Vec::new();
    for c in it: s.chars()
        invariant
            it.seq() == s@,
            v@ == it.seq().take(it.index() as int),
    {
        let ghost before = v@;
        v.push(c);
        assert(v@ =~= it.seq().take(it.index() + 1));
    }
    assert(v@ =~= s@);
    v
}

/// The string that holds the characters `v[from..to]`.
pub fn string_of_range(v: &Vec<char>, from: usize, to: usize) -> (r: String)
    requires
        from <= to <= v.len(),
    ensures
        r@ == v@.subrange(from as int, to as int),
{
    let mut r = String::new();
    let mut i: usize = from;
    while i < to
        invariant
            from <= i <= to <= v.len(),
            r@ == v@.subrange(from as int, i as int),
        decreases to - i,
    {
        push_char(&mut r, v[i]);
        assert(v@.subrange(from as int, i as int).push(v@[i as int]) =~= v@.subrange(
            from as int,
            i + 1,
        ));
        i += 1;
    }
    r
}

/// The digit character for a value below ten.
fn digit_of(d: u64) -> (c: char)
    requires
        d < 10,
    ensures
        c == digit_char(d as nat),
{
    if d == 0 {
        '0'
    } else if d == 1 {
        '1'
    } else if d == 2 {
        '2'
    } else if d == 3 {
        '3'
    } else if d == 4 {
        '4'
    } else if d == 5 {
        '5'
    } else if d == 6 {
        '6'
    } else if d == 7 {
        '7'
    } else if d == 8 {
        '8'
    } else {
        '9'
    }
}

/// Writes a number in base ten.
pub fn decimal_string(n: u64) -> (r: String)
    ensures
        r@ == decimal(n as nat),
    decreases n,
{
    if n < 10 {
        let mut r = String::new();
        push_char(&mut r, digit_of(n));
        assert(Seq::<char>::empty().push(digit_char(n as nat)) =~= seq![digit_char(n as nat)]);
        r
    } else {
        let mut r = decimal_string(n / 10);
        push_char(&mut r, digit_of(n % 10));
        r
    }
}

/// Writes a count in base ten.
pub fn decimal_of_usize(n: usize) -> (r: String)
    ensures
        r@ == decimal(n as nat),
{
    decimal_string(n as u64)
}

/// The texts that a list of strings holds, as a set.
pub open spec fn text_set(v: Seq<String>) -> Set<Seq<char>> {
    Set::new(|t: Seq<char>| exists|i: int| 0 <= i < v.len() && #[trigger] v[i]@ == t)
}

/// Whether `t` is among the strings of `v`.
pub fn contains_text(v: &Vec<String>, t: &str) -> (r: bool)
    ensures
        r == text_set(v@).contains(t@),
{
    let mut i: usize = 0;
    while i < v.len()
        invariant
            i <= v@.len(),
            forall|j: int| 0 <= j < i ==> (#[trigger] v@[j])@ != t@,
        decreases v@.len() - i,
    {
        if same_text(v[i].as_str(), t) {
            return true;
        }
        i += 1;
    }
    false
}

/// Takes every string equal to `t` out of `v`.
pub fn remove_text(v: &mut Vec<String>, t: &str)
    ensures
        text_set(final(v)@) == text_set(old(v)@).remove(t@),
{
    let mut kept: Vec<String> = Vec::new();
    let mut i: usize = 0;
    while i < v.len()
        invariant
            i <= v@.len(),
            forall|k: int|
                0 <= k < kept@.len() ==> (#[trigger] kept@[k])@ != t@ && exists|m: int|
                    0 <= m < i && (#[trigger] v@[m])@ == kept@[k]@,
            forall|m: int|
                0 <= m < i && (#[trigger] v@[m])@ != t@ ==> exists|k: int|
                    0 <= k < kept@.len() && (#[trigger] kept@[k])@ == v@[m]@,
        decreases v@.len() - i,
    {
        if !same_text(v[i].as_str(), t) {
            let ghost before = kept@;
            kept.push(v[i].clone());
            proof {
                let last = kept@.len() - 1;
                assert(kept@[last]@ == v@[i as int]@);
                assert forall|m: int| 0 <= m < i + 1 && (#[trigger] v@[m])@ != t@ implies exists|
                    k: int,
                | 0 <= k < kept@.len() && (#[trigger] kept@[k])@ == v@[m]@ by {
                    if m < i {
                        let k = choose|k: int|
                            0 <= k < before.len() && (#[trigger] before[k])@ == v@[m]@;
                        assert(kept@[k]@ == v@[m]@);
                    } else {
                        assert(kept@[last]@ == v@[m]@);
                    }
                }
                assert forall|k: int| 0 <= k < kept@.len() implies (#[trigger] kept@[k])@ != t@
                    && exists|m: int| 0 <= m < i + 1 && (#[trigger] v@[m])@ == kept@[k]@ by {
                    if k < before.len() {
                        assert(kept@[k] == before[k]);
                        let m = choose|m: int| 0 <= m < i && (#[trigger] v@[m])@ == before[k]@;
                        assert(v@[m]@ == kept@[k]@);
                    } else {
                        assert(v@[i as int]@ == kept@[k]@);
                    }
                }
            }
        }
        i += 1;
    }
    proof {
        assert forall|s: Seq<char>| text_set(kept@).contains(s) <==> text_set(v@).remove(
            t@,
        ).contains(s) by {
            if text_set(kept@).contains(s) {
                let k = choose|k: int| 0 <= k < kept@.len() && #[trigger] kept@[k]@ == s;
                let m = choose|m: int| 0 <= m < v@.len() && (#[trigger] v@[m])@ == kept@[k]@;
                assert(v@[m]@ == s);
            }
            if text_set(v@).remove(t@).contains(s) {
                let m = choose|m: int| 0 <= m < v@.len() && #[trigger] v@[m]@ == s;
                let k = choose|k: int| 0 <= k < kept@.len() && (#[trigger] kept@[k])@ == v@[m]@;
                assert(kept@[k]@ == s);
            }
        }
        assert(text_set(kept@) =~= text_set(v@).remove(t@));
    }
    *v = kept;
}

/// Two paths put together as on a file system with `/` between components:
/// an absolute `name` stands alone, an empty `base` adds nothing, and a `/`
/// is put between the two unless `base` ends in one.
pub open spec fn joined(base: Seq<char>, name: Seq<char>) -> Seq<char> {
    if name.len() > 0 && name[0] == '/' {
        name
    } else if base.len() == 0 {
        name
    } else if base.last() == '/' {
        base + name
    } else {
        base + "/"@ + name
    }
}

/// Puts two paths together, with `/` between components.
pub fn join_path(base: &str, name: &str) -> (r: String)
    ensures
        r@ == joined(base@, name@),
{
    let n = name.unicode_len();
    let b = base.unicode_len();
    if n > 0 && name.get_char(0) == '/' {
        String::from_str(name)
    } else if b == 0 {
        String::from_str(name)
    } else if base.get_char(b - 1) == '/' {
        let mut r = String::from_str(base);
        push_text(&mut r, name);
        r
    } else {
        let mut r = String::from_str(base);
        push_text(&mut r, "/");
        push_text(&mut r, name);
        r
    }
}

/// A text in which every character that occurs in `hostile` is replaced by
/// `_`.
pub open spec fn sanitized(s: Seq<char>, hostile: Seq<char>) -> Seq<char> {
    Seq::new(
        s.len(),
        |i: int|
            if hostile.contains(s[i]) {
                '_'
            } else {
                s[i]
            },
    )
}

/// Whether `c` occurs in `chars`.
pub fn has_char(chars: &Vec<char>, c: char) -> (r: bool)
    ensures
        r == chars@.contains(c),
{
    let mut i: usize = 0;
    while i < chars.len()
        invariant
            i <= chars@.len(),
            forall|j: int| 0 <= j < i ==> chars@[j] != c,
        decreases chars@.len() - i,
    {
        if chars[i] == c {
            return true;
        }
        i += 1;
    }
    false
}

/// Replaces every character of `s` that occurs in `hostile` by `_`.
pub fn sanitize(s: &str, hostile: &Vec<char>) -> (r: String)
    ensures
        r@ == sanitized(s@, hostile@),
{
    let chars = chars_of(s);
    let mut r = String::new();
    let mut i: usize = 0;
    while i < chars.len()
        invariant
            i <= chars@.len(),
            r@ == sanitized(chars@, hostile@).take(i as int),
        decreases chars@.len() - i,
    {
        let c = chars[i];
        if has_char(hostile, c) {
            push_char(&mut r, '_');
        } else {
            push_char(&mut r, c);
        }
        assert(r@ =~= sanitized(chars@, hostile@).take(i + 1));
        i += 1;
    }
    assert(r@ =~= sanitized(chars@, hostile@));
    r
}

/// A text without hostile characters is left as it is.
pub proof fn lemma_sanitized_clean(s: Seq<char>, hostile: Seq<char>)
    requires
        forall|i: int| 0 <= i < s.len() ==> !hostile.contains(s[i]),
    ensures
        sanitized(s, hostile) == s,
{
    assert(sanitized(s, hostile) =~= s);
}

/// What comes out holds no hostile character, unless `_` itself is one.
pub proof fn lemma_sanitized_is_safe(s: Seq<char>, hostile: Seq<char>)
    requires
        !hostile.contains('_'),
    ensures
        sanitized(s, hostile).len() == s.len(),
        forall|i: int| 0 <= i < s.len() ==> !hostile.contains(#[trigger] sanitized(s, hostile)[i]),
{
}

/// Whether a character is white space: the code points with the Unicode
/// property `White_Space`.
pub open spec fn is_space(c: char) -> bool {
    let n = c as u32;
    (0x09 <= n <= 0x0D) || n == 0x20 || n == 0x85 || n == 0xA0 || n == 0x1680 || (0x2000 <= n
        <= 0x200A) || n == 0x2028 || n == 0x2029 || n == 0x202F || n == 0x205F || n == 0x3000
}

/// Whether a character is white space.
pub fn is_space_char(c: char) -> (r: bool)
    ensures
        r == is_space(c),
{
    let n: u32 = c as u32;
    (0x09 <= n && n <= 0x0D) || n == 0x20 || n == 0x85 || n == 0xA0 || n == 0x1680 || (0x2000 <= n
        && n <= 0x200A) || n == 0x2028 || n == 0x2029 || n == 0x202F || n == 0x205F || n
        == 0x3000
}

/// Where a text begins once the white space at its start is left out.
pub open spec fn trim_start_index(s: Seq<char>) -> int
    decreases s.len(),
{
    if s.len() == 0 || !is_space(s[0]) {
        0
    } else {
        1 + trim_start_index(s.drop_first())
    }
}

/// Where a text ends once the white space at its end is left out.
pub open spec fn trim_end_index(s: Seq<char>) -> int
    decreases s.len(),
{
    if s.len() == 0 || !is_space(s.last()) {
        s.len() as int
    } else {
        trim_end_index(s.drop_last())
    }
}

/// A text without the white space at its start and at its end.
pub open spec fn trimmed(s: Seq<char>) -> Seq<char> {
    let start = trim_start_index(s);
    let rest = s.skip(start);
    rest.take(trim_end_index(rest))
}

/// The start index lies in the text, only white space stands before it, and
/// none stands at it.
pub proof fn lemma_trim_start_index(s: Seq<char>)
    ensures
        0 <= trim_start_index(s) <= s.len(),
        forall|i: int| 0 <= i < trim_start_index(s) ==> is_space(s[i]),
        trim_start_index(s) < s.len() ==> !is_space(s[trim_start_index(s)]),
    decreases s.len(),
{
    if s.len() == 0 || !is_space(s[0]) {
    } else {
        let rest = s.drop_first();
        lemma_trim_start_index(rest);
        assert forall|i: int| 0 <= i < trim_start_index(s) implies is_space(s[i]) by {
            if i > 0 {
                assert(rest[i - 1] == s[i]);
            }
        }
        if trim_start_index(s) < s.len() {
            assert(rest[trim_start_index(rest)] == s[trim_start_index(s)]);
        }
    }
}

/// The end index lies in the text, only white space stands from it on, and
/// none stands just before it.
pub proof fn lemma_trim_end_index(s: Seq<char>)
    ensures
        0 <= trim_end_index(s) <= s.len(),
        forall|i: int| trim_end_index(s) <= i < s.len() ==> is_space(s[i]),
        trim_end_index(s) > 0 ==> !is_space(s[trim_end_index(s) - 1]),
    decreases s.len(),
{
    if s.len() == 0 || !is_space(s.last()) {
    } else {
        let front = s.drop_last();
        lemma_trim_end_index(front);
        assert forall|i: int| trim_end_index(s) <= i < s.len() implies is_space(s[i]) by {
            if i < front.len() {
                assert(front[i] == s[i]);
            }
        }
        if trim_end_index(s) > 0 {
            assert(front[trim_end_index(s) - 1] == s[trim_end_index(s) - 1]);
        }
    }
}

/// A place before which only white space stands and at which none stands is
/// the start index.
proof fn lemma_trim_start_unique(s: Seq<char>, k: int)
    requires
        0 <= k <= s.len(),
        forall|i: int| 0 <= i < k ==> is_space(s[i]),
        k < s.len() ==> !is_space(s[k]),
    ensures
        trim_start_index(s) == k,
    decreases s.len(),
{
    if s.len() == 0 || !is_space(s[0]) {
    } else {
        let rest = s.drop_first();
        assert forall|i: int| 0 <= i < k - 1 implies is_space(rest[i]) by {
            assert(rest[i] == s[i + 1]);
        }
        if k - 1 < rest.len() {
            assert(rest[k - 1] == s[k]);
        }
        lemma_trim_start_unique(rest, k - 1);
    }
}

/// A place from which on only white space stands and before which none
/// stands is the end index.
proof fn lemma_trim_end_unique(s: Seq<char>, k: int)
    requires
        0 <= k <= s.len(),
        forall|i: int| k <= i < s.len() ==> is_space(s[i]),
        k > 0 ==> !is_space(s[k - 1]),
    ensures
        trim_end_index(s) == k,
    decreases s.len(),
{
    if s.len() == 0 || !is_space(s.last()) {
    } else {
        let front = s.drop_last();
        assert forall|i: int| k <= i < front.len() implies is_space(front[i]) by {
            assert(front[i] == s[i]);
        }
        if k > 0 {
            assert(front[k - 1] == s[k - 1]);
        }
        lemma_trim_end_unique(front, k);
    }
}

/// The bounds of the trimmed part of `v`.
pub fn trim_bounds(v: &Vec<char>) -> (r: (usize, usize))
    ensures
        r.0 <= r.1 <= v@.len(),
        v@.subrange(r.0 as int, r.1 as int) == trimmed(v@),
{
    let mut start: usize = 0;
    while start < v.len() && is_space_char(v[start])
        invariant
            start <= v@.len(),
            forall|i: int| 0 <= i < start ==> is_space(v@[i]),
        decreases v@.len() - start,
    {
        start += 1;
    }
    let mut end: usize = v.len();
    while end > start && is_space_char(v[end - 1])
        invariant
            start <= end <= v@.len(),
            forall|i: int| end <= i < v@.len() ==> is_space(v@[i]),
        decreases end,
    {
        end -= 1;
    }
    proof {
        lemma_trim_start_unique(v@, start as int);
        let rest = v@.skip(start as int);
        assert forall|i: int| end - start <= i < rest.len() implies is_space(rest[i]) by {
            assert(rest[i] == v@[i + start]);
        }
        if end > start {
            assert(rest[end - start - 1] == v@[end - 1]);
        }
        lemma_trim_end_unique(rest, end - start);
        assert(v@.subrange(start as int, end as int) =~= rest.take(end - start));
    }
    (start, end)
}

/// A text without the white space at its start and at its end.
pub fn trim_text(s: &str) -> (r: String)
    ensures
        r@ == trimmed(s@),
{
    let v = chars_of(s);
    let (start, end) = trim_bounds(&v);
    string_of_range(&v, start, end)
}

/// The place of the first `sep` in `s`, or the length of `s` where it holds
/// none.
pub open spec fn first_index(s: Seq<char>, sep: char) -> int
    decreases s.len(),
{
    if s.len() == 0 || s[0] == sep {
        0
    } else {
        1 + first_index(s.drop_first(), sep)
    }
}

/// The parts of `s` between the occurrences of `sep`: one more part than
/// there are occurrences, empty parts included.
pub open spec fn split(s: Seq<char>, sep: char) -> Seq<Seq<char>>
    decreases s.len(),
    via split_decreases
{
    let k = first_index(s, sep);
    if k >= s.len() {
        seq![s]
    } else {
        seq![s.take(k)] + split(s.skip(k + 1), sep)
    }
}

#[via_fn]
proof fn split_decreases(s: Seq<char>, sep: char) {
    lemma_first_index(s, sep);
}

/// The first index lies in the text or at its end, no `sep` stands before
/// it, and one stands at it unless it is the end.
pub proof fn lemma_first_index(s: Seq<char>, sep: char)
    ensures
        0 <= first_index(s, sep) <= s.len(),
        forall|i: int| 0 <= i < first_index(s, sep) ==> s[i] != sep,
        first_index(s, sep) < s.len() ==> s[first_index(s, sep)] == sep,
    decreases s.len(),
{
    if s.len() == 0 || s[0] == sep {
    } else {
        let rest = s.drop_first();
        lemma_first_index(rest, sep);
        assert forall|i: int| 0 <= i < first_index(s, sep) implies s[i] != sep by {
            if i > 0 {
                assert(rest[i - 1] == s[i]);
            }
        }
        if first_index(s, sep) < s.len() {
            assert(rest[first_index(rest, sep)] == s[first_index(s, sep)]);
        }
    }
}

/// A place before which no `sep` stands and at which one stands, or which is
/// the end, is the first index.
pub proof fn lemma_first_index_unique(s: Seq<char>, sep: char, k: int)
    requires
        0 <= k <= s.len(),
        forall|i: int| 0 <= i < k ==> s[i] != sep,
        k < s.len() ==> s[k] == sep,
    ensures
        first_index(s, sep) == k,
    decreases s.len(),
{
    if s.len() == 0 || s[0] == sep {
    } else {
        let rest = s.drop_first();
        assert forall|i: int| 0 <= i < k - 1 implies rest[i] != sep by {
            assert(rest[i] == s[i + 1]);
        }
        if k - 1 < rest.len() {
            assert(rest[k - 1] == s[k]);
        }
        lemma_first_index_unique(rest, sep, k - 1);
    }
}

/// The parts of `v[from..to]` between the occurrences of `sep`.
pub fn split_range(v: &Vec<char>, from: usize, to: usize, sep: char) -> (r: Vec<String>)
    requires
        from <= to <= v@.len(),
    ensures
        strings_view(r@) == split(v@.subrange(from as int, to as int), sep),
        r@.len() >= 1,
{
    let ghost whole = v@.subrange(from as int, to as int);
    let mut parts: Vec<String> = Vec::new();
    let mut start: usize = from;
    let mut i: usize = from;
    proof {
        assert(whole.skip(0) =~= whole);
        assert(strings_view(parts@) =~= Seq::<Seq<char>>::empty());
    }
    while i < to
        invariant
            from <= start <= i <= to <= v@.len(),
            whole == v@.subrange(from as int, to as int),
            forall|j: int| start <= j < i ==> v@[j] != sep,
            strings_view(parts@) + split(whole.skip(start - from), sep) == split(whole, sep),
        decreases to - i,
    {
        if v[i] == sep {
            let part = string_of_range(v, start, i);
            let ghost before = parts@;
            parts.push(part);
            proof {
                let rest = whole.skip(start - from);
                assert forall|j: int| 0 <= j < i - start implies rest[j] != sep by {
                    assert(rest[j] == v@[j + start]);
                }
                assert(rest[i - start] == v@[i as int]);
                lemma_first_index_unique(rest, sep, i - start);
                assert(rest.take(i - start) =~= v@.subrange(start as int, i as int));
                assert(rest.skip(i - start + 1) =~= whole.skip(i + 1 - from));
                assert(strings_view(parts@) =~= strings_view(before).push(part@));
                assert(strings_view(parts@) + split(whole.skip(i + 1 - from), sep)
                    =~= strings_view(before) + split(rest, sep));
            }
            start = i + 1;
        }
        i += 1;
    }
    let part = string_of_range(v, start, to);
    let ghost before = parts@;
    parts.push(part);
    proof {
        let rest = whole.skip(start - from);
        assert forall|j: int| 0 <= j < to - start implies rest[j] != sep by {
            assert(rest[j] == v@[j + start]);
        }
        lemma_first_index_unique(rest, sep, to - start);
        assert(rest =~= v@.subrange(start as int, to as int));
        assert(strings_view(parts@) =~= strings_view(before).push(part@));
        assert(strings_view(parts@) =~= strings_view(before) + split(rest, sep));
    }
    parts
}

/// The parts of `s` between the occurrences of `sep`.
pub fn split_text(s: &str, sep: char) -> (r: Vec<String>)
    ensures
        strings_view(r@) == split(s@, sep),
        r@.len() >= 1,
{
    let v = chars_of(s);
    let r = split_range(&v, 0, v.len(), sep);
    assert(v@.subrange(0, v@.len() as int) =~= v@);
    r
}

/// Whether a character is one of the ten ASCII digits.
pub open spec fn is_digit(c: char) -> bool {
    '0' <= c <= '9'
}

/// The number that a text of digits stands for in base ten.
pub open spec fn digits_value(s: Seq<char>) -> nat
    decreases s.len(),
{
    if s.len() == 0 {
        0
    } else {
        digits_value(s.drop_last()) * 10 + (s.last() as nat - '0' as nat) as nat
    }
}

/// Whether a text holds nothing but digits.
pub open spec fn all_digits(s: Seq<char>) -> bool {
    forall|i: int| 0 <= i < s.len() ==> is_digit(#[trigger] s[i])
}

/// A text without the `+` that may stand at its start.
pub open spec fn without_plus(s: Seq<char>) -> Seq<char> {
    if s.len() > 0 && s[0] == '+' {
        s.skip(1)
    } else {
        s
    }
}

/// The number that a text stands for: an optional `+`, then at least one
/// digit and nothing but digits, with a value that fits in 32 bits.
pub open spec fn parsed_u32(s: Seq<char>) -> Option<u32> {
    let digits = without_plus(s);
    if digits.len() > 0 && all_digits(digits) && digits_value(digits) <= u32::MAX {
        Some(digits_value(digits) as u32)
    } else {
        None
    }
}

/// The value of a text of digits is at least the value of each of its
/// prefixes.
proof fn lemma_digits_value_grows(s: Seq<char>, k: int)
    requires
        0 <= k <= s.len(),
    ensures
        digits_value(s.take(k)) <= digits_value(s),
    decreases s.len(),
{
    if k == s.len() {
        assert(s.take(k) =~= s);
    } else {
        let front = s.drop_last();
        assert(front.take(k) =~= s.take(k));
        lemma_digits_value_grows(front, k);
    }
}

/// Reads a number written in base ten.
pub fn parse_u32(s: &str) -> (r: Option<u32>)
    ensures
        r == parsed_u32(s@),
{
    let v = chars_of(s);
    let first: usize = if v.len() > 0 && v[0] == '+' {
        1
    } else {
        0
    };
    let ghost digits = v@.skip(first as int);
    assert(v@.skip(0) =~= v@);
    assert(digits == without_plus(s@));
    if first == v.len() {
        return None;
    }
    let mut value: u64 = 0;
    let mut i: usize = first;
    proof {
        assert(digits.take(0) =~= Seq::<char>::empty());
    }
    while i < v.len()
        invariant
            v@ == s@,
            first <= i <= v@.len(),
            first < v@.len(),
            digits == without_plus(s@),
            digits == v@.skip(first as int),
            forall|j: int| 0 <= j < i - first ==> is_digit(#[trigger] digits[j]),
            value == digits_value(digits.take(i - first)),
            value <= u32::MAX,
        decreases v@.len() - i,
    {
        let c = v[i];
        assert(digits[i - first] == c);
        if !('0' <= c && c <= '9') {
            assert(!is_digit(digits[i - first]));
            return None;
        }
        let d: u64 = (c as u32 - '0' as u32) as u64;
        let next: u64 = value * 10 + d;
        proof {
            assert(digits.take(i - first + 1).drop_last() =~= digits.take(i - first));
            assert(digits.take(i - first + 1).last() == c);
            assert(next == digits_value(digits.take(i - first + 1)));
        }
        if next > 0xFFFF_FFFF {
            proof {
                if parsed_u32(s@) is Some {
                    lemma_digits_value_grows(digits, i - first + 1);
                }
            }
            return None;
        }
        value = next;
        i += 1;
    }
    proof {
        assert(digits.take(digits.len() as int) =~= digits);
    }
    Some(value as u32)
}

/// A number in base ten with at least two digits: a zero stands before a
/// single digit.
pub open spec fn padded2(n: nat) -> Seq<char> {
    if n < 10 {
        "0"@ + decimal(n)
    } else {
        decimal(n)
    }
}

/// Writes a number in base ten with at least two digits.
pub fn pad2(n: u32) -> (r: String)
    ensures
        r@ == padded2(n as nat),
{
    if n < 10 {
        let mut r = String::from_str("0");
        push_text(&mut r, decimal_string(n as u64).as_str());
        r
    } else {
        decimal_string(n as u64)
    }
}

/// A character with the upper-case ASCII letters turned into lower case.
pub open spec fn ascii_lower(c: char) -> char {
    if 'A' <= c <= 'Z' {
        ((c as u8) + 32) as char
    } else {
        c
    }
}

/// A text with its upper-case ASCII letters turned into lower case.
pub open spec fn ascii_lowered(s: Seq<char>) -> Seq<char> {
    Seq::new(s.len(), |i: int| ascii_lower(s[i]))
}

/// A character with the upper-case ASCII letters turned into lower case.
pub fn ascii_lower_char(c: char) -> (r: char)
    ensures
        r == ascii_lower(c),
{
    if 'A' <= c && c <= 'Z' {
        ((c as u8) + 32) as char
    } else {
        c
    }
}

/// Whether two texts are the same once the case of ASCII letters is left
/// out of account.
pub fn same_ignoring_ascii_case(a: &str, b: &str) -> (r: bool)
    ensures
        r == (ascii_lowered(a@) == ascii_lowered(b@)),
{
    let x = chars_of(a);
    let y = chars_of(b);
    if x.len() != y.len() {
        assert(ascii_lowered(a@).len() != ascii_lowered(b@).len());
        return false;
    }
    let mut i: usize = 0;
    while i < x.len()
        invariant
            x@ == a@,
            y@ == b@,
            x@.len() == y@.len(),
            i <= x@.len(),
            forall|j: int| 0 <= j < i ==> ascii_lower(x@[j]) == ascii_lower(y@[j]),
        decreases x@.len() - i,
    {
        if ascii_lower_char(x[i]) != ascii_lower_char(y[i]) {
            assert(ascii_lowered(a@)[i as int] != ascii_lowered(b@)[i as int]);
            return false;
        }
        i += 1;
    }
    assert(ascii_lowered(a@) =~= ascii_lowered(b@));
    true
}

/// Whether `a` stands before `b` in the order of the dictionary, character
/// by character.
pub open spec fn text_before(a: Seq<char>, b: Seq<char>) -> bool
    decreases a.len(),
{
    if b.len() == 0 {
        false
    } else if a.len() == 0 {
        true
    } else if a[0] != b[0] {
        a[0] < b[0]
    } else {
        text_before(a.drop_first(), b.drop_first())
    }
}

/// Whether `a[i..]` stands before `b[i..]`.
fn before_from(a: &Vec<char>, b: &Vec<char>, i: usize) -> (r: bool)
    requires
        i <= a@.len(),
        i <= b@.len(),
    ensures
        r == text_before(a@.skip(i as int), b@.skip(i as int)),
    decreases a@.len() - i,
{
    if i >= b.len() {
        false
    } else if i >= a.len() {
        true
    } else if a[i] != b[i] {
        a[i] < b[i]
    } else {
        assert(a@.skip(i as int).drop_first() =~= a@.skip(i + 1));
        assert(b@.skip(i as int).drop_first() =~= b@.skip(i + 1));
        before_from(a, b, i + 1)
    }
}

/// Whether `a` stands before `b` in the order of the dictionary.
pub fn is_text_before(a: &str, b: &str) -> (r: bool)
    ensures
        r == text_before(a@, b@),
{
    let x = chars_of(a);
    let y = chars_of(b);
    assert(x@.skip(0) =~= x@);
    assert(y@.skip(0) =~= y@);
    before_from(&x, &y, 0)
}

/// No text stands before itself.
pub proof fn lemma_text_before_irreflexive(a: Seq<char>)
    ensures
        !text_before(a, a),
    decreases a.len(),
{
    if a.len() > 0 {
        lemma_text_before_irreflexive(a.drop_first());
    }
}

/// Of two different texts one stands before the other.
pub proof fn lemma_text_before_total(a: Seq<char>, b: Seq<char>)
    ensures
        text_before(a, b) || text_before(b, a) || a == b,
        !(text_before(a, b) && text_before(b, a)),
    decreases a.len(),
{
    if a.len() == 0 || b.len() == 0 {
        if a.len() == 0 && b.len() == 0 {
            assert(a =~= b);
        }
    } else if a[0] != b[0] {
    } else {
        lemma_text_before_total(a.drop_first(), b.drop_first());
        if a.drop_first() == b.drop_first() {
            assert(a =~= seq![a[0]] + a.drop_first());
            assert(b =~= seq![b[0]] + b.drop_first());
        }
    }
}

/// The order of the dictionary is transitive.
pub proof fn lemma_text_before_transitive(a: Seq<char>, b: Seq<char>, c: Seq<char>)
    requires
        text_before(a, b),
        text_before(b, c),
    ensures
        text_before(a, c),
    decreases a.len(),
{
    if a.len() == 0 {
    } else if a[0] != b[0] {
    } else if b[0] != c[0] {
    } else {
        lemma_text_before_transitive(a.drop_first(), b.drop_first(), c.drop_first());
    }
}

/// The number of bytes that a text takes in UTF-8.
pub fn byte_length(s: &str) -> (n: usize)
    ensures
        n == vstd::utf8::encode_utf8(s@).len(),
{
    s.as_bytes().len()
}

/// The place just behind the last `c` in `s`, or zero where `s` holds none.
pub open spec fn after_last(s: Seq<char>, c: char) -> int
    decreases s.len(),
{
    if s.len() == 0 {
        0
    } else if s.last() == c {
        s.len() as int
    } else {
        after_last(s.drop_last(), c)
    }
}

/// No `c` stands at or behind the place, and one stands just before it
/// unless it is zero.
pub proof fn lemma_after_last(s: Seq<char>, c: char)
    ensures
        0 <= after_last(s, c) <= s.len(),
        forall|i: int| after_last(s, c) <= i < s.len() ==> s[i] != c,
        after_last(s, c) > 0 ==> s[after_last(s, c) - 1] == c,
    decreases s.len(),
{
    if s.len() == 0 {
    } else if s.last() == c {
    } else {
        let front = s.drop_last();
        lemma_after_last(front, c);
        assert forall|i: int| after_last(s, c) <= i < s.len() implies s[i] != c by {
            if i < front.len() {
                assert(front[i] == s[i]);
            }
        }
        if after_last(s, c) > 0 {
            assert(front[after_last(s, c) - 1] == s[after_last(s, c) - 1]);
        }
    }
}

/// A place with these two properties is the place behind the last `c`.
pub proof fn lemma_after_last_unique(s: Seq<char>, c: char, k: int)
    requires
        0 <= k <= s.len(),
        forall|i: int| k <= i < s.len() ==> s[i] != c,
        k > 0 ==> s[k - 1] == c,
    ensures
        after_last(s, c) == k,
    decreases s.len(),
{
    if s.len() == 0 {
    } else if s.last() == c {
    } else {
        let front = s.drop_last();
        assert forall|i: int| k <= i < front.len() implies front[i] != c by {
            assert(front[i] == s[i]);
        }
        if k > 0 {
            assert(front[k - 1] == s[k - 1]);
        }
        lemma_after_last_unique(front, c, k);
    }
}

/// The place just behind the last `c` in `v`, or zero where `v` holds none.
pub fn after_last_index(v: &Vec<char>, c: char) -> (k: usize)
    ensures
        k == after_last(v@, c),
        k <= v@.len(),
{
    let mut k: usize = v.len();
    while k > 0 && v[k - 1] != c
        invariant
            k <= v@.len(),
            forall|i: int| k <= i < v@.len() ==> v@[i] != c,
        decreases k,
    {
        k -= 1;
    }
    proof {
        lemma_after_last_unique(v@, c, k as int);
    }
    k
}

/// A copy of a list of strings.
pub fn clone_strings(v: &Vec<String>) -> (r: Vec<String>)
    ensures
        strings_view(r@) == strings_view(v@),
{
    let mut r: Vec<String> = Vec::new();
    let mut i: usize = 0;
    while i < v.len()
        invariant
            i <= v@.len(),
            r@.len() == i,
            forall|k: int| 0 <= k < i ==> (#[trigger] r@[k])@ == v@[k]@,
        decreases v@.len() - i,
    {
        r.push(v[i].clone());
        i += 1;
    }
    assert(strings_view(r@) =~= strings_view(v@));
    r
}


/// The lower-case hexadecimal digit for a value below sixteen.
pub open spec fn hex_digit(d: nat) -> char {
    if d < 10 {
        digit_char(d)
    } else if d == 10 {
        'a'
    } else if d == 11 {
        'b'
    } else if d == 12 {
        'c'
    } else if d == 13 {
        'd'
    } else if d == 14 {
        'e'
    } else {
        'f'
    }
}

/// A number written in base sixteen with lower-case digits, without leading
/// zeros.
pub open spec fn hex(n: nat) -> Seq<char>
    decreases n,
{
    if n < 16 {
        seq![hex_digit(n)]
    } else {
        hex(n / 16).push(hex_digit(n % 16))
    }
}

/// The lower-case hexadecimal digit for a value below sixteen.
fn hex_digit_of(d: u32) -> (c: char)
    requires
        d < 16,
    ensures
        c == hex_digit(d as nat),
{
    if d < 10 {
        digit_of(d as u64)
    } else if d == 10 {
        'a'
    } else if d == 11 {
        'b'
    } else if d == 12 {
        'c'
    } else if d == 13 {
        'd'
    } else if d == 14 {
        'e'
    } else {
        'f'
    }
}

/// Writes a number in base sixteen with lower-case digits.
pub fn hex_string(n: u32) -> (r: String)
    ensures
        r@ == hex(n as nat),
    decreases n,
{
    if n < 16 {
        let mut r = String::new();
        push_char(&mut r, hex_digit_of(n));
        assert(Seq::<char>::empty().push(hex_digit(n as nat)) =~= seq![hex_digit(n as nat)]);
        r
    } else {
        let mut r = hex_string(n / 16);
        push_char(&mut r, hex_digit_of(n % 16));
        r
    }
}

/// A whole number written in base ten, with `-` before a negative one.
pub open spec fn signed_decimal(n: int) -> Seq<char> {
    if n < 0 {
        "-"@ + decimal((-n) as nat)
    } else {
        decimal(n as nat)
    }
}

/// Writes a whole number in base ten.
pub fn decimal_of_i32(n: i32) -> (r: String)
    ensures
        r@ == signed_decimal(n as int),
{
    if n < 0 {
        let mut r = String::from_str("-");
        let magnitude: u64 = (-(n as i64)) as u64;
        push_text(&mut r, decimal_string(magnitude).as_str());
        r
    } else {
        decimal_string(n as u64)
    }
}

/// A text in which every `c` is replaced by `with`.
pub open spec fn with_replaced(s: Seq<char>, c: char, with: Seq<char>) -> Seq<char>
    decreases s.len(),
{
    if s.len() == 0 {
        Seq::empty()
    } else {
        with_replaced(s.drop_last(), c, with) + if s.last() == c {
            with
        } else {
            seq![s.last()]
        }
    }
}

/// Replaces every `c` in `s` by `with`.
pub fn replace_char(s: &str, c: char, with: &str) -> (r: String)
    ensures
        r@ == with_replaced(s@, c, with@),
{
    let chars = chars_of(s);
    let mut r = String::new();
    let mut i: usize = 0;
    proof {
        assert(chars@.take(0) =~= Seq::<char>::empty());
    }
    while i < chars.len()
        invariant
            i <= chars@.len(),
            r@ == with_replaced(chars@.take(i as int), c, with@),
        decreases chars@.len() - i,
    {
        proof {
            assert(chars@.take(i + 1).drop_last() =~= chars@.take(i as int));
        }
        if chars[i] == c {
            push_text(&mut r, with);
        } else {
            let ghost before = r@;
            push_char(&mut r, chars[i]);
            assert(r@ =~= before + seq![chars@[i as int]]);
        }
        i += 1;
    }
    assert(chars@.take(chars@.len() as int) =~= chars@);
    r
}

/// The words of a text: its longest runs of characters that are no white
/// space, in their order.
pub open spec fn words(s: Seq<char>) -> Seq<Seq<char>>
    decreases s.len(),
{
    if s.len() == 0 {
        Seq::empty()
    } else {
        let before = words(s.drop_last());
        if is_space(s.last()) {
            before
        } else if s.len() >= 2 && !is_space(s[s.len() - 2]) && before.len() > 0 {
            before.drop_last().push(before.last().push(s.last()))
        } else {
            before.push(seq![s.last()])
        }
    }
}

/// The words of a text.
pub fn split_words(s: &str) -> (r: Vec<String>)
    ensures
        strings_view(r@) == words(s@),
{
    let chars = chars_of(s);
    let mut found: Vec<String> = Vec::new();
    let mut i: usize = 0;
    let mut start: usize = 0;
    proof {
        assert(chars@.take(0) =~= Seq::<char>::empty());
        assert(strings_view(found@) =~= Seq::<Seq<char>>::empty());
    }
    while i < chars.len()
        invariant
            i <= chars@.len(),
            start <= i,
            forall|j: int| start <= j < i ==> !is_space(chars@[j]),
            start > 0 ==> is_space(chars@[start - 1]),
            words(chars@.take(i as int)) == if start < i {
                strings_view(found@).push(chars@.subrange(start as int, i as int))
            } else {
                strings_view(found@)
            },
        decreases chars@.len() - i,
    {
        proof {
            let next = chars@.take(i + 1);
            assert(next.drop_last() =~= chars@.take(i as int));
            assert(next.last() == chars@[i as int]);
            if i >= 1 {
                assert(next[i - 1] == chars@[i - 1]);
            }
        }
        if is_space_char(chars[i]) {
            if start < i {
                let word = string_of_range(&chars, start, i);
                let ghost before = found@;
                found.push(word);
                assert(strings_view(found@) =~= strings_view(before).push(word@));
            }
            start = i + 1;
        } else {
            proof {
                let run = chars@.subrange(start as int, i as int);
                let longer = chars@.subrange(start as int, i + 1);
                let done = strings_view(found@);
                if start < i {
                    assert(done.push(run).drop_last() =~= done);
                    assert(run.push(chars@[i as int]) =~= longer);
                } else {
                    assert(longer =~= seq![chars@[i as int]]);
                }
            }
        }
        i += 1;
    }
    proof {
        assert(chars@.take(chars@.len() as int) =~= chars@);
    }
    if start < chars.len() {
        let word = string_of_range(&chars, start, chars.len());
        let ghost before = found@;
        found.push(word);
        assert(strings_view(found@) =~= strings_view(before).push(word@));
    }
    found
}

/// The place of the first `c` in `v` at or behind `from`, or the length of
/// `v` where none stands there.
pub fn find_from(v: &Vec<char>, from: usize, c: char) -> (r: usize)
    requires
        from <= v@.len(),
    ensures
        from <= r <= v@.len(),
        r == from + first_index(v@.skip(from as int), c),
{
    let mut k: usize = from;
    while k < v.len() && v[k] != c
        invariant
            from <= k <= v@.len(),
            forall|i: int| from <= i < k ==> v@[i] != c,
        decreases v@.len() - k,
    {
        k += 1;
    }
    proof {
        let rest = v@.skip(from as int);
        assert forall|i: int| 0 <= i < k - from implies rest[i] != c by {
            assert(rest[i] == v@[i + from]);
        }
        if k < v@.len() {
            assert(rest[k - from] == v@[k as int]);
        }
        lemma_first_index_unique(rest, c, k - from);
    }
    k
}

/// Appends the characters `v[from..to]`.
pub fn push_range(s: &mut String, v: &Vec<char>, from: usize, to: usize)
    requires
        from <= to <= v@.len(),
    ensures
        final(s)@ == old(s)@ + v@.subrange(from as int, to as int),
{
    let mut i: usize = from;
    assert(s@ =~= old(s)@ + v@.subrange(from as int, from as int));
    while i < to
        invariant
            from <= i <= to <= v@.len(),
            s@ == old(s)@ + v@.subrange(from as int, i as int),
        decreases to - i,
    {
        push_char(s, v[i]);
        assert(s@ =~= old(s)@ + v@.subrange(from as int, i + 1));
        i += 1;
    }
}

/// Whether the path `path` lies at or below `base`: it is `base`, or it
/// begins with `base` and a `/` parts the two.
pub open spec fn path_within(path: Seq<char>, base: Seq<char>) -> bool {
    path == base || (path.len() > base.len() && path.take(base.len() as int) == base && (
    path[base.len() as int] == '/' || (base.len() > 0 && base.last() == '/')))
}

/// Whether the path `path` lies at or below `base`.
pub fn is_path_within(path: &str, base: &str) -> (r: bool)
    ensures
        r == path_within(path@, base@),
{
    let p = chars_of(path);
    let b = chars_of(base);
    if p.len() < b.len() {
        return false;
    }
    let mut i: usize = 0;
    while i < b.len()
        invariant
            p@ == path@,
            b@ == base@,
            b@.len() <= p@.len(),
            i <= b@.len(),
            forall|j: int| 0 <= j < i ==> p@[j] == b@[j],
        decreases b@.len() - i,
    {
        if p[i] != b[i] {
            assert(path@.take(base@.len() as int)[i as int] != base@[i as int]);
            return false;
        }
        i += 1;
    }
    assert(path@.take(base@.len() as int) =~= base@);
    if p.len() == b.len() {
        assert(path@ =~= base@);
        true
    } else {
        p[b.len()] == '/' || (b.len() > 0 && b[b.len() - 1] == '/')
    }
}


} // verus!
