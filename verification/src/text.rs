//! Text on the level of characters: comparing, searching, trimming, splitting
//! and writing numbers.
use vstd::prelude::*;

verus! {

/// `String::push` of the standard library: appends the character to the end of
/// the string.
pub assume_specification[ String::push ](s: &mut String, c: char)
    ensures
        final(s)@ == old(s)@.push(c),
;

/// An ASCII capital becomes its small letter; any other character stays.
pub open spec fn lower_char(c: char) -> char {
    if 'A' <= c && c <= 'Z' {
        ((c as u32) + 32) as char
    } else {
        c
    }
}

/// An ASCII small letter becomes its capital; any other character stays.
pub open spec fn upper_char(c: char) -> char {
    if 'a' <= c && c <= 'z' {
        ((c as u32) - 32) as char
    } else {
        c
    }
}

/// The text with its ASCII capitals made small.
pub open spec fn lower(s: Seq<char>) -> Seq<char> {
    Seq::new(s.len(), |i: int| lower_char(s[i]))
}

/// The text with its ASCII small letters made capitals.
pub open spec fn upper(s: Seq<char>) -> Seq<char> {
    Seq::new(s.len(), |i: int| upper_char(s[i]))
}

/// `part` stands in `whole` at position `at`.
pub open spec fn stands_at(whole: Seq<char>, part: Seq<char>, at: int) -> bool {
    0 <= at && at + part.len() <= whole.len() && whole.subrange(at, at + part.len()) == part
}

/// `part` stands somewhere in `whole`.
pub open spec fn has_part(whole: Seq<char>, part: Seq<char>) -> bool {
    exists|at: int| stands_at(whole, part, at)
}

/// Characters with the Unicode property `White_Space`.
pub open spec fn is_white(c: char) -> bool {
    ||| '\u{9}' <= c && c <= '\u{d}'
    ||| c == '\u{20}'
    ||| c == '\u{85}'
    ||| c == '\u{a0}'
    ||| c == '\u{1680}'
    ||| '\u{2000}' <= c && c <= '\u{200a}'
    ||| c == '\u{2028}'
    ||| c == '\u{2029}'
    ||| c == '\u{202f}'
    ||| c == '\u{205f}'
    ||| c == '\u{3000}'
}

/// The text without the characters of `drop` that stand at its start.
pub open spec fn trim_start(s: Seq<char>, drop: spec_fn(char) -> bool) -> Seq<char>
    decreases s.len(),
{
    if s.len() > 0 && drop(s[0]) {
        trim_start(s.skip(1), drop)
    } else {
        s
    }
}

/// The text without the characters of `drop` that stand at its end.
pub open spec fn trim_end(s: Seq<char>, drop: spec_fn(char) -> bool) -> Seq<char>
    decreases s.len(),
{
    if s.len() > 0 && drop(s.last()) {
        trim_end(s.drop_last(), drop)
    } else {
        s
    }
}

/// White space, as a predicate.
pub open spec fn white() -> spec_fn(char) -> bool {
    |c: char| is_white(c)
}

/// The NUL character, as a predicate.
pub open spec fn nul() -> spec_fn(char) -> bool {
    |c: char| c == '\0'
}

/// The text without the white space at its start and its end.
pub open spec fn trim(s: Seq<char>) -> Seq<char> {
    trim_end(trim_start(s, white()), white())
}

/// The text without the NUL characters at its start and its end.
pub open spec fn trim_nul(s: Seq<char>) -> Seq<char> {
    trim_end(trim_start(s, nul()), nul())
}

/// The piece from `from` up to `to` is a field of the text: it stands between
/// two separators, or a separator and an end of the text, and holds none.
pub open spec fn is_field(s: Seq<char>, separator: char, from: int, to: int) -> bool {
    &&& 0 <= from <= to <= s.len()
    &&& from == 0 || s[from - 1] == separator
    &&& to == s.len() || s[to] == separator
    &&& forall|i: int| from <= i < to ==> s[i] != separator
}

/// One of the fields of the text, split at the separator, is `field`.
pub open spec fn has_field(s: Seq<char>, separator: char, field: Seq<char>) -> bool {
    exists|from: int, to: int| #[trigger]
        is_field(s, separator, from, to) && s.subrange(from, to) == field
}

/// The digit for a value below 16, in lower case.
pub open spec fn digit(n: nat) -> char {
    if n < 10 {
        (48 + n) as char
    } else {
        (87 + n) as char
    }
}

/// A number written with digits of the given base, without leading zeros.
pub open spec fn in_base(n: nat, base: nat) -> Seq<char>
    decreases n,
{
    if base < 2 || n < base {
        seq![digit(n)]
    } else {
        proof {
            assert(n / base < n) by (nonlinear_arith)
                requires
                    2 <= base,
                    n >= base,
            ;
        }
        in_base(n / base, base).push(digit(n % base))
    }
}

/// A number in decimal.
pub open spec fn decimal(n: nat) -> Seq<char> {
    in_base(n, 10)
}

/// A number in hexadecimal, behind `0x`.
pub open spec fn hex(n: nat) -> Seq<char> {
    "0x"@ + in_base(n, 16)
}

/// The characters of a text.
pub fn to_chars(s: &str) -> (r: Vec<char>)
    ensures
        r@ == s@,
{
    let mut out: Vec<char> = Vec::new();
    for c in it: s.chars()
        invariant
            out@ == it.seq().take(it.index()),
            it.seq() == s@,
    {
        proof {
            assert(it.seq().take(it.index() + 1) =~= it.seq().take(it.index()).push(c));
        }
        out.push(c);
    }
    proof {
        assert(s@.take(s@.len() as int) =~= s@);
    }
    out
}

/// The text made of the characters.
pub fn to_text(chars: &Vec<char>) -> (r: String)
    ensures
        r@ == chars@,
{
    let mut out = String::new();
    let mut i: usize = 0;
    while i < chars.len()
        invariant
            i <= chars@.len(),
            out@ == chars@.take(i as int),
        decreases chars@.len() - i,
    {
        out.push(chars[i]);
        i = i + 1;
        proof {
            assert(chars@.take(i as int) =~= chars@.take(i - 1).push(chars@[i - 1]));
        }
    }
    proof {
        assert(chars@.take(i as int) =~= chars@);
    }
    out
}

/// Whether two texts are the same.
pub fn same(a: &str, b: &str) -> (r: bool)
    ensures
        r == (a@ == b@),
{
    a.to_owned() == b.to_owned()
}

/// The text with its ASCII capitals made small.
pub fn to_lower(s: &str) -> (r: Vec<char>)
    ensures
        r@ == lower(s@),
{
    let chars = to_chars(s);
    let mut out: Vec<char> = Vec::new();
    let mut i: usize = 0;
    while i < chars.len()
        invariant
            i <= chars@.len(),
            chars@ == s@,
            out@ == lower(s@).take(i as int),
        decreases chars@.len() - i,
    {
        let c = chars[i];
        let l = if 'A' <= c && c <= 'Z' {
            ((c as u8) + 32) as char
        } else {
            c
        };
        out.push(l);
        i = i + 1;
        proof {
            assert(lower(s@).take(i as int) =~= lower(s@).take(i - 1).push(lower(s@)[i - 1]));
        }
    }
    proof {
        assert(lower(s@).take(i as int) =~= lower(s@));
    }
    out
}

/// The text with its ASCII small letters made capitals.
pub fn to_upper(s: &str) -> (r: Vec<char>)
    ensures
        r@ == upper(s@),
{
    let chars = to_chars(s);
    let mut out: Vec<char> = Vec::new();
    let mut i: usize = 0;
    while i < chars.len()
        invariant
            i <= chars@.len(),
            chars@ == s@,
            out@ == upper(s@).take(i as int),
        decreases chars@.len() - i,
    {
        let c = chars[i];
        let u = if 'a' <= c && c <= 'z' {
            ((c as u8) - 32) as char
        } else {
            c
        };
        out.push(u);
        i = i + 1;
        proof {
            assert(upper(s@).take(i as int) =~= upper(s@).take(i - 1).push(upper(s@)[i - 1]));
        }
    }
    proof {
        assert(upper(s@).take(i as int) =~= upper(s@));
    }
    out
}

/// Whether `part` stands in `whole` at position `at`.
pub fn stands_here(whole: &Vec<char>, part: &Vec<char>, at: usize) -> (r: bool)
    ensures
        r == stands_at(whole@, part@, at as int),
{
    if at > whole.len() || part.len() > whole.len() - at {
        return false;
    }
    let mut i: usize = 0;
    while i < part.len()
        invariant
            i <= part@.len(),
            at + part@.len() <= whole.len(),
            forall|j: int| 0 <= j < i ==> whole@[at + j] == #[trigger] part@[j],
        decreases part@.len() - i,
    {
        if whole[at + i] != part[i] {
            proof {
                assert(whole@.subrange(at as int, at + part@.len())[i as int] != part@[i as int]);
            }
            return false;
        }
        i = i + 1;
    }
    proof {
        assert(whole@.subrange(at as int, at + part@.len()) =~= part@);
    }
    true
}

/// Whether `part` stands somewhere in `whole`.
pub fn contains(whole: &Vec<char>, part: &Vec<char>) -> (r: bool)
    ensures
        r == has_part(whole@, part@),
{
    let mut at: usize = 0;
    while at < whole.len()
        invariant
            at <= whole@.len(),
            forall|j: int| 0 <= j < at ==> !stands_at(whole@, part@, j),
        decreases whole@.len() - at,
    {
        if stands_here(whole, part, at) {
            return true;
        }
        at = at + 1;
    }
    stands_here(whole, part, at)
}

/// Whether the text begins with `prefix`.
pub fn starts_with(s: &str, prefix: &str) -> (r: bool)
    ensures
        r == stands_at(s@, prefix@, 0),
{
    stands_here(&to_chars(s), &to_chars(prefix), 0)
}

/// The characters from `from` up to `to`.
pub fn slice(chars: &Vec<char>, from: usize, to: usize) -> (r: Vec<char>)
    requires
        from <= to <= chars@.len(),
    ensures
        r@ == chars@.subrange(from as int, to as int),
{
    let mut out: Vec<char> = Vec::new();
    let mut i: usize = from;
    while i < to
        invariant
            from <= i <= to <= chars@.len(),
            out@ == chars@.subrange(from as int, i as int),
        decreases to - i,
    {
        out.push(chars[i]);
        i = i + 1;
        proof {
            assert(chars@.subrange(from as int, i as int) =~= chars@.subrange(
                from as int,
                i - 1,
            ).push(chars@[i - 1]));
        }
    }
    out
}

/// Whether the character is white space.
pub fn is_white_space(c: char) -> (r: bool)
    ensures
        r == is_white(c),
{
    ('\u{9}' <= c && c <= '\u{d}') || c == '\u{20}' || c == '\u{85}' || c == '\u{a0}' || c
        == '\u{1680}' || ('\u{2000}' <= c && c <= '\u{200a}') || c == '\u{2028}' || c == '\u{2029}'
        || c == '\u{202f}' || c == '\u{205f}' || c == '\u{3000}'
}

/// Whether the character is one to trim: NUL, or else white space.
fn is_trimmed(c: char, only_nul: bool) -> (r: bool)
    ensures
        r == (if only_nul {
            nul()(c)
        } else {
            white()(c)
        }),
{
    if only_nul {
        c == '\0'
    } else {
        is_white_space(c)
    }
}

/// The text without the trimmed characters at its start and its end.
fn trim_both(s: &str, only_nul: bool) -> (r: Vec<char>)
    ensures
        r@ == (if only_nul {
            trim_nul(s@)
        } else {
            trim(s@)
        }),
{
    let chars = to_chars(s);
    let ghost drop = if only_nul {
        nul()
    } else {
        white()
    };
    let mut from: usize = 0;
    proof {
        assert(s@.skip(0) =~= s@);
    }
    while from < chars.len() && is_trimmed(chars[from], only_nul)
        invariant
            from <= chars@.len(),
            chars@ == s@,
            drop == (if only_nul {
                nul()
            } else {
                white()
            }),
            trim_start(s@, drop) == trim_start(s@.skip(from as int), drop),
        decreases chars@.len() - from,
    {
        proof {
            let rest = s@.skip(from as int);
            assert(rest[0] == chars@[from as int]);
            assert(rest.skip(1) =~= s@.skip(from + 1));
        }
        from = from + 1;
    }
    let ghost kept = s@.skip(from as int);
    proof {
        assert(kept.len() > 0 ==> kept[0] == chars@[from as int]);
        assert(trim_start(s@, drop) == kept);
        assert(s@.subrange(from as int, chars@.len() as int) =~= kept);
    }
    let mut to: usize = chars.len();
    while to > from && is_trimmed(chars[to - 1], only_nul)
        invariant
            from <= to <= chars@.len(),
            chars@ == s@,
            drop == (if only_nul {
                nul()
            } else {
                white()
            }),
            trim_end(kept, drop) == trim_end(s@.subrange(from as int, to as int), drop),
        decreases to,
    {
        proof {
            let rest = s@.subrange(from as int, to as int);
            assert(rest.last() == chars@[to - 1]);
            assert(rest.drop_last() =~= s@.subrange(from as int, to - 1));
        }
        to = to - 1;
    }
    proof {
        let rest = s@.subrange(from as int, to as int);
        assert(rest.len() > 0 ==> rest.last() == chars@[to - 1]);
    }
    slice(&chars, from, to)
}

/// The text without the white space at its start and its end.
pub fn trimmed(s: &str) -> (r: Vec<char>)
    ensures
        r@ == trim(s@),
{
    trim_both(s, false)
}

/// The text without the NUL characters at its start and its end.
pub fn trimmed_nul(s: &str) -> (r: Vec<char>)
    ensures
        r@ == trim_nul(s@),
{
    trim_both(s, true)
}

/// Whether one of the fields of the text, split at the separator, is `field`.
pub fn contains_field(s: &str, separator: char, field: &str) -> (r: bool)
    ensures
        r == has_field(s@, separator, field@),
{
    let chars = to_chars(s);
    let wanted = to_chars(field);
    let mut k: usize = 0;
    while k < wanted.len()
        invariant
            k <= wanted@.len(),
            wanted@ == field@,
            forall|j: int| 0 <= j < k ==> wanted@[j] != separator,
        decreases wanted@.len() - k,
    {
        if wanted[k] == separator {
            proof {
                assert forall|from: int, to: int| #[trigger]
                    is_field(s@, separator, from, to) implies s@.subrange(from, to) != field@ by {
                    if s@.subrange(from, to) == field@ {
                        assert(s@.subrange(from, to)[k as int] == s@[from + k]);
                    }
                }
            }
            return false;
        }
        k = k + 1;
    }
    let mut at: usize = 0;
    while at <= chars.len()
        invariant
            at <= chars@.len() + 1,
            chars@ == s@,
            wanted@ == field@,
            forall|j: int| 0 <= j < wanted@.len() ==> wanted@[j] != separator,
            forall|from: int, to: int| #[trigger]
                is_field(s@, separator, from, to) && from < at ==> s@.subrange(from, to) != field@,
        decreases chars@.len() + 1 - at,
    {
        if (at == 0 || chars[at - 1] == separator) && stands_here(&chars, &wanted, at) {
            let end = at + wanted.len();
            if end == chars.len() || chars[end] == separator {
                proof {
                    assert forall|i: int| at <= i < end implies s@[i] != separator by {
                        assert(s@.subrange(at as int, end as int)[i - at] == field@[i - at]);
                    }
                    assert(is_field(s@, separator, at as int, end as int));
                }
                return true;
            }
        }
        proof {
            assert forall|from: int, to: int| #[trigger]
                is_field(s@, separator, from, to) && from < at + 1 implies s@.subrange(from, to)
                != field@ by {
                if from == at && s@.subrange(from, to) == field@ {
                    assert(to == at + field@.len());
                    assert(stands_at(s@, field@, at as int));
                }
            }
        }
        if at == chars.len() {
            return false;
        }
        at = at + 1;
    }
    false
}

/// The digit for a value below 16.
fn digit_char(n: u64) -> (r: char)
    requires
        n < 16,
    ensures
        r == digit(n as nat),
{
    if n < 10 {
        (48 + n as u8) as char
    } else {
        (87 + n as u8) as char
    }
}

/// Writes a number with digits of the given base.
fn digits(n: u64, base: u64) -> (r: String)
    requires
        2 <= base <= 16,
    ensures
        r@ == in_base(n as nat, base as nat),
    decreases n,
{
    if n < base {
        let mut out = String::new();
        out.push(digit_char(n));
        proof {
            assert(out@ =~= seq![digit(n as nat)]);
        }
        out
    } else {
        proof {
            assert(n / base < n) by (nonlinear_arith)
                requires
                    2 <= base,
                    n >= base,
            ;
            assert(n % base < base) by (nonlinear_arith)
                requires
                    2 <= base,
            ;
        }
        let mut out = digits(n / base, base);
        out.push(digit_char(n % base));
        out
    }
}

/// Writes a number in decimal.
pub fn decimal_text(n: u64) -> (r: String)
    ensures
        r@ == decimal(n as nat),
{
    digits(n, 10)
}

/// Writes a number in hexadecimal, behind `0x`.
pub fn hex_text(n: u64) -> (r: String)
    ensures
        r@ == hex(n as nat),
{
    let mut out = "0x".to_owned();
    let rest = digits(n, 16);
    out.append(rest.as_str());
    out
}

/// The text that `a` and `b` make, one behind the other.
pub fn join(a: &str, b: &str) -> (r: String)
    ensures
        r@ == a@ + b@,
{
    let mut out = a.to_owned();
    out.append(b);
    out
}

/// Making a text small or capital changes ASCII letters only: each stays at its
/// place and moves by the distance between the two alphabets.
pub proof fn law_ascii_case(s: Seq<char>)
    ensures
        lower(s).len() == s.len(),
        upper(s).len() == s.len(),
        forall|i: int| 0 <= i < s.len() && 65 <= s[i] as int <= 90 ==> (#[trigger] lower(s)[i]) as int == s[i] as int + 32,
        forall|i: int| 0 <= i < s.len() && !(65 <= s[i] as int <= 90) ==> #[trigger] lower(s)[i] == s[i],
        forall|i: int| 0 <= i < s.len() && 97 <= s[i] as int <= 122 ==> (#[trigger] upper(s)[i]) as int == s[i] as int - 32,
        forall|i: int| 0 <= i < s.len() && !(97 <= s[i] as int <= 122) ==> #[trigger] upper(s)[i] == s[i],
{
}

/// A part stands in a text exactly when the text is something, the part, and
/// something.
pub proof fn law_parts(whole: Seq<char>, part: Seq<char>)
    ensures
        has_part(whole, part) <==> exists|before: Seq<char>, after: Seq<char>|
            #[trigger] (before + part + after) == whole,
        stands_at(whole, part, 0) <==> exists|after: Seq<char>| #[trigger] (part + after) == whole,
{
    if has_part(whole, part) {
        let at = choose|at: int| stands_at(whole, part, at);
        let before = whole.take(at);
        let after = whole.skip(at + part.len());
        assert(before + part + after =~= whole);
    }
    if exists|before: Seq<char>, after: Seq<char>| #[trigger] (before + part + after) == whole {
        let (before, after) = choose|before: Seq<char>, after: Seq<char>|
            #[trigger] (before + part + after) == whole;
        assert(whole.subrange(before.len() as int, before.len() as int + part.len()) =~= part);
        assert(stands_at(whole, part, before.len() as int));
    }
    if stands_at(whole, part, 0) {
        assert(part + whole.skip(part.len() as int) =~= whole);
    }
    if exists|after: Seq<char>| #[trigger] (part + after) == whole {
        let after = choose|after: Seq<char>| #[trigger] (part + after) == whole;
        assert(whole.subrange(0, part.len() as int) =~= part);
    }
}

/// A field of a text holds no separator, and stands between separators or ends.
pub proof fn law_fields(s: Seq<char>, separator: char, field: Seq<char>)
    ensures
        has_field(s, separator, field) <==> !field.contains(separator) && exists|
            before: Seq<char>,
            after: Seq<char>,
        |
            {
                &&& #[trigger] (before + field + after) == s
                &&& before.len() == 0 || before.last() == separator
                &&& after.len() == 0 || after[0] == separator
            },
{
    if has_field(s, separator, field) {
        let (from, to) = choose|from: int, to: int| #[trigger]
            is_field(s, separator, from, to) && s.subrange(from, to) == field;
        let before = s.take(from);
        let after = s.skip(to);
        assert(before + field + after =~= s);
        assert forall|i: int| 0 <= i < field.len() implies field[i] != separator by {
            assert(field[i] == s[from + i]);
        }
        if from > 0 {
            assert(before.last() == s[from - 1]);
        }
        if to < s.len() {
            assert(after[0] == s[to]);
        }
    }
    if !field.contains(separator) {
        assert forall|before: Seq<char>, after: Seq<char>|
            {
                &&& #[trigger] (before + field + after) == s
                &&& before.len() == 0 || before.last() == separator
                &&& after.len() == 0 || after[0] == separator
            } implies has_field(s, separator, field) by {
            let from = before.len() as int;
            let to = from + field.len();
            assert(s.subrange(from, to) =~= field);
            assert forall|i: int| from <= i < to implies s[i] != separator by {
                assert(field[i - from] == s[i]);
                assert(field.contains(field[i - from]));
            }
            if from > 0 {
                assert(s[from - 1] == before.last());
            }
            if to < s.len() {
                assert(s[to] == after[0]);
            }
            assert(is_field(s, separator, from, to));
        }
    }
}

proof fn lemma_trim_start_cut(s: Seq<char>, drop: spec_fn(char) -> bool) -> (from: int)
    ensures
        0 <= from <= s.len(),
        trim_start(s, drop) == s.skip(from),
        forall|i: int| 0 <= i < from ==> drop(#[trigger] s[i]),
        from < s.len() ==> !drop(s[from]),
    decreases s.len(),
{
    if s.len() > 0 && drop(s[0]) {
        let rest = s.skip(1);
        let from = lemma_trim_start_cut(rest, drop);
        assert(rest.skip(from) =~= s.skip(from + 1));
        assert forall|i: int| 0 <= i < from + 1 implies drop(#[trigger] s[i]) by {
            if i > 0 {
                assert(rest[i - 1] == s[i]);
            }
        }
        if from < rest.len() {
            assert(rest[from] == s[from + 1]);
        }
        from + 1
    } else {
        assert(s.skip(0) =~= s);
        0
    }
}

proof fn lemma_trim_end_cut(s: Seq<char>, drop: spec_fn(char) -> bool) -> (to: int)
    ensures
        0 <= to <= s.len(),
        trim_end(s, drop) == s.take(to),
        forall|i: int| to <= i < s.len() ==> drop(#[trigger] s[i]),
        to > 0 ==> !drop(s[to - 1]),
    decreases s.len(),
{
    if s.len() > 0 && drop(s.last()) {
        let rest = s.drop_last();
        let to = lemma_trim_end_cut(rest, drop);
        assert(rest.take(to) =~= s.take(to));
        assert forall|i: int| to <= i < s.len() implies drop(#[trigger] s[i]) by {
            if i < rest.len() {
                assert(rest[i] == s[i]);
            }
        }
        if to > 0 {
            assert(rest[to - 1] == s[to - 1]);
        }
        to
    } else {
        assert(s.take(s.len() as int) =~= s);
        s.len() as int
    }
}

proof fn lemma_trim_both(s: Seq<char>, drop: spec_fn(char) -> bool) -> (cut: (int, int))
    ensures
        0 <= cut.0 <= cut.1 <= s.len(),
        trim_end(trim_start(s, drop), drop) == s.subrange(cut.0, cut.1),
        forall|i: int| 0 <= i < cut.0 || cut.1 <= i < s.len() ==> drop(#[trigger] s[i]),
        cut.0 < cut.1 ==> !drop(s[cut.0]) && !drop(s[cut.1 - 1]),
{
    let from = lemma_trim_start_cut(s, drop);
    let rest = s.skip(from);
    let len = lemma_trim_end_cut(rest, drop);
    assert(rest.take(len) =~= s.subrange(from, from + len));
    assert forall|i: int| 0 <= i < from || from + len <= i < s.len() implies drop(
        #[trigger] s[i],
    ) by {
        if i >= from + len {
            assert(rest[i - from] == s[i]);
        }
    }
    if len > 0 {
        assert(rest[len - 1] == s[from + len - 1]);
        assert(rest[0] == s[from]);
    }
    (from, from + len)
}

/// Trimming takes white space off both ends and nothing else: what is left is a
/// piece of the text, begins and ends with something else, and what was cut off is
/// white space.
pub proof fn law_trim(s: Seq<char>)
    ensures
        exists|from: int, to: int|
            {
                &&& 0 <= from <= to <= s.len()
                &&& trim(s) == #[trigger] s.subrange(from, to)
                &&& forall|i: int|
                    0 <= i < from || to <= i < s.len() ==> is_white(#[trigger] s[i])
                &&& from < to ==> !is_white(s[from]) && !is_white(s[to - 1])
            },
        is_white(' '),
        is_white('\n'),
        is_white('\t'),
        forall|c: char| '!' <= c <= '~' ==> !(#[trigger] is_white(c)),
{
    let (from, to) = lemma_trim_both(s, white());
    assert(trim(s) == s.subrange(from, to));
    assert forall|i: int| 0 <= i < from || to <= i < s.len() implies is_white(#[trigger] s[i]) by {
        assert(white()(s[i]));
    }
}

/// Trimming zero characters takes them off both ends and nothing else.
pub proof fn law_trim_nul(s: Seq<char>)
    ensures
        exists|from: int, to: int|
            {
                &&& 0 <= from <= to <= s.len()
                &&& trim_nul(s) == #[trigger] s.subrange(from, to)
                &&& forall|i: int| 0 <= i < from || to <= i < s.len() ==> #[trigger] s[i] == '\0'
                &&& from < to ==> s[from] != '\0' && s[to - 1] != '\0'
            },
{
    let (from, to) = lemma_trim_both(s, nul());
    assert(trim_nul(s) == s.subrange(from, to));
    assert forall|i: int| 0 <= i < from || to <= i < s.len() implies #[trigger] s[i] == '\0' by {
        assert(nul()(s[i]));
    }
}

/// A number in decimal is that of its tens and then the digit of its units.
pub proof fn law_decimal(n: nat)
    ensures
        n < 10 ==> decimal(n) == seq![(48 + n) as char],
        n >= 10 ==> decimal(n) == decimal(n / 10).push((48 + n % 10) as char),
{
}

/// A number in hexadecimal begins with `0x`; then come the digits of its sixteens
/// and the digit of its units, in small letters beyond nine.
pub proof fn law_hex(n: nat)
    ensures
        n < 10 ==> hex(n) == seq!['0', 'x', (48 + n) as char],
        10 <= n < 16 ==> hex(n) == seq!['0', 'x', (87 + n) as char],
        n >= 16 && n % 16 < 10 ==> hex(n) == hex(n / 16).push((48 + n % 16) as char),
        n >= 16 && n % 16 >= 10 ==> hex(n) == hex(n / 16).push((87 + n % 16) as char),
{
    reveal_strlit("0x");
    if n < 16 {
        assert(hex(n) =~= seq!['0', 'x', digit(n)]);
    } else {
        assert(hex(n) =~= hex(n / 16).push(digit(n % 16)));
    }
}

/// A part stands at a place exactly when as many characters come before it.
pub proof fn law_places(whole: Seq<char>, part: Seq<char>, at: int)
    ensures
        stands_at(whole, part, at) <==> exists|before: Seq<char>, after: Seq<char>|
            #[trigger] (before + part + after) == whole && before.len() == at,
{
    if stands_at(whole, part, at) {
        let before = whole.take(at);
        let after = whole.skip(at + part.len());
        assert(before + part + after =~= whole);
    }
    assert forall|before: Seq<char>, after: Seq<char>|
        #[trigger] (before + part + after) == whole && before.len() == at implies stands_at(
        whole,
        part,
        at,
    ) by {
        assert(whole.subrange(at, at + part.len()) =~= part);
    }
}

} // verus!
