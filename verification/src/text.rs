//! Text helpers: building, trimming and ordering of strings.
use vstd::prelude::*;

verus! {

/// The text that a list of strings holds, string by string.
pub open spec fn texts(list: Seq<String>) -> Seq<Seq<char>> {
    list.map_values(|s: String| s@)
}

/// `parts` one after the other, with `separator` between each two of them.
pub open spec fn joined(parts: Seq<Seq<char>>, separator: Seq<char>) -> Seq<char>
    decreases parts.len(),
{
    if parts.len() == 0 {
        Seq::empty()
    } else if parts.len() == 1 {
        parts[0]
    } else {
        joined(parts.drop_last(), separator) + separator + parts.last()
    }
}

/// The decimal digits of `n`, most significant first.
pub open spec fn digits(n: nat) -> Seq<char>
    decreases n,
{
    if n < 10 {
        seq![digit(n)]
    } else {
        digits(n / 10).push(digit(n % 10))
    }
}

/// The character that stands for one decimal digit.
pub open spec fn digit(d: nat) -> char {
    (('0' as nat) + d) as char
}

/// The decimal notation of `n`, with a leading `-` where it is negative.
pub open spec fn decimal(n: int) -> Seq<char> {
    if n < 0 {
        seq!['-'] + digits((-n) as nat)
    } else {
        digits(n as nat)
    }
}

/// What `char::is_whitespace` says of a character beyond ASCII: whether it has
/// the Unicode property `White_Space`.
pub uninterp spec fn wide_space(c: char) -> bool;

/// Whether a character is whitespace: in ASCII the blank and the characters from
/// the tab to the carriage return, beyond ASCII what Unicode says.
pub open spec fn is_space(c: char) -> bool {
    if c <= '\u{7f}' {
        c == ' ' || ('\t' <= c && c <= '\r')
    } else {
        wide_space(c)
    }
}

/// `char::is_whitespace`, which tells whether a character has the Unicode
/// property `White_Space`. In ASCII the blank and the characters from the tab to
/// the carriage return have it; the answer for any other character is named
/// `wide_space`.
pub assume_specification[ char::is_whitespace ](c: char) -> (r: bool)
    ensures
        c <= '\u{7f}' ==> r == (c == ' ' || ('\t' <= c && c <= '\r')),
        c > '\u{7f}' ==> r == wide_space(c),
;

/// `String::push` appends one character.
pub assume_specification[ String::push ](s: &mut String, c: char)
    ensures
        final(s)@ == old(s)@.push(c),
;

/// Whether a text holds nothing but whitespace.
pub open spec fn blank(s: Seq<char>) -> bool {
    forall|i: int| 0 <= i < s.len() ==> is_space(#[trigger] s[i])
}

/// `s` without the whitespace at its end.
pub open spec fn end_trimmed(s: Seq<char>) -> Seq<char>
    decreases s.len(),
{
    if s.len() > 0 && is_space(s.last()) {
        end_trimmed(s.drop_last())
    } else {
        s
    }
}

/// `s` without the whitespace at its start.
pub open spec fn start_trimmed(s: Seq<char>) -> Seq<char>
    decreases s.len(),
{
    if s.len() > 0 && is_space(s[0]) {
        start_trimmed(s.drop_first())
    } else {
        s
    }
}

/// `s` without the whitespace at either end.
pub open spec fn trimmed(s: Seq<char>) -> Seq<char> {
    start_trimmed(end_trimmed(s))
}

/// Whether `a` comes before `b`: at the first place where they differ `a` has
/// the smaller code point, or ends.
pub open spec fn precedes(a: Seq<char>, b: Seq<char>) -> bool
    decreases a.len(),
{
    if b.len() == 0 {
        false
    } else if a.len() == 0 {
        true
    } else if a[0] != b[0] {
        a[0] < b[0]
    } else {
        precedes(a.drop_first(), b.drop_first())
    }
}

/// No text comes before itself.
pub proof fn precedes_irreflexive(a: Seq<char>)
    ensures
        !precedes(a, a),
    decreases a.len(),
{
    if a.len() > 0 {
        precedes_irreflexive(a.drop_first());
    }
}

/// The order of texts is transitive.
pub proof fn precedes_transitive(a: Seq<char>, b: Seq<char>, c: Seq<char>)
    requires
        precedes(a, b),
        precedes(b, c),
    ensures
        precedes(a, c),
    decreases a.len(),
{
    if a.len() > 0 && a[0] == b[0] && b[0] == c[0] {
        precedes_transitive(a.drop_first(), b.drop_first(), c.drop_first());
    }
}

/// Of two texts that differ one comes before the other.
pub proof fn precedes_total(a: Seq<char>, b: Seq<char>)
    ensures
        a == b || precedes(a, b) || precedes(b, a),
    decreases a.len(),
{
    if a.len() > 0 && b.len() > 0 && a[0] == b[0] {
        precedes_total(a.drop_first(), b.drop_first());
        if a.drop_first() == b.drop_first() {
            assert(a =~= seq![a[0]] + a.drop_first());
            assert(b =~= seq![b[0]] + b.drop_first());
        }
    } else if a.len() == 0 && b.len() == 0 {
        assert(a =~= b);
    }
}

/// The characters of a string.
pub fn to_chars(s: &str) -> (r: Vec<char>)
    ensures
        r@ == s@,
{
    let mut r: Vec<char> = Vec::new();
    for c in it: s.chars()
        invariant
            r@ == it.seq().take(it.index()),
            it.seq() == s@,
    {
        r.push(c);
    }
    r
}

/// The string of the characters `chars[from..to]`.
pub fn from_chars(chars: &Vec<char>, from: usize, to: usize) -> (r: String)
    requires
        from <= to <= chars@.len(),
    ensures
        r@ == chars@.subrange(from as int, to as int),
{
    let mut r = String::new();
    let mut i: usize = from;
    while i < to
        invariant
            from <= i <= to <= chars@.len(),
            r@ == chars@.subrange(from as int, i as int),
        decreases to - i,
    {
        r.push(chars[i]);
        i += 1;
    }
    r
}

/// Whether two strings hold the same text.
pub fn same_text(a: &str, b: &str) -> (r: bool)
    ensures
        r == (a@ == b@),
{
    a.to_owned() == b.to_owned()
}

/// Whether `a` comes before `b`.
pub fn text_precedes(a: &str, b: &str) -> (r: bool)
    ensures
        r == precedes(a@, b@),
{
    let left = to_chars(a);
    let right = to_chars(b);
    let mut i: usize = 0;
    proof {
        assert(a@.skip(0) =~= a@);
        assert(b@.skip(0) =~= b@);
    }
    while i < left.len() && i < right.len()
        invariant
            left@ == a@,
            right@ == b@,
            i <= left.len(),
            i <= right.len(),
            precedes(a@, b@) == precedes(a@.skip(i as int), b@.skip(i as int)),
        decreases left.len() - i,
    {
        if left[i] != right[i] {
            return left[i] < right[i];
        }
        proof {
            assert(a@.skip(i as int).drop_first() =~= a@.skip(i + 1));
            assert(b@.skip(i as int).drop_first() =~= b@.skip(i + 1));
        }
        i += 1;
    }
    i < right.len()
}

/// Whether the first character of `s` is `c`.
pub fn starts_with_char(s: &str, c: char) -> (r: bool)
    ensures
        r == (s@.len() > 0 && s@[0] == c),
{
    let chars = to_chars(s);
    chars.len() > 0 && chars[0] == c
}

/// Whether `s` begins with `prefix`.
pub fn starts_with(s: &str, prefix: &str) -> (r: bool)
    ensures
        r == prefix@.is_prefix_of(s@),
{
    let chars = to_chars(s);
    let wanted = to_chars(prefix);
    if wanted.len() > chars.len() {
        return false;
    }
    let mut i: usize = 0;
    while i < wanted.len()
        invariant
            chars@ == s@,
            wanted@ == prefix@,
            i <= wanted.len() <= chars.len(),
            forall|j: int| 0 <= j < i ==> chars@[j] == wanted@[j],
        decreases wanted.len() - i,
    {
        if chars[i] != wanted[i] {
            proof {
                assert(prefix@[i as int] != s@.take(prefix@.len() as int)[i as int]);
            }
            return false;
        }
        i += 1;
    }
    proof {
        assert(prefix@ =~= s@.take(prefix@.len() as int));
    }
    true
}

/// Whether `s` holds nothing but whitespace.
pub fn is_blank(s: &str) -> (r: bool)
    ensures
        r == blank(s@),
{
    let chars = to_chars(s);
    let mut i: usize = 0;
    while i < chars.len()
        invariant
            chars@ == s@,
            i <= chars.len(),
            forall|j: int| 0 <= j < i ==> is_space(#[trigger] s@[j]),
        decreases chars.len() - i,
    {
        if !chars[i].is_whitespace() {
            return false;
        }
        i += 1;
    }
    true
}

/// Where the whitespace at the end of `chars` begins.
fn end_of_text(chars: &Vec<char>) -> (r: usize)
    ensures
        r <= chars@.len(),
        chars@.take(r as int) == end_trimmed(chars@),
{
    let mut end: usize = chars.len();
    proof {
        assert(chars@.take(end as int) =~= chars@);
    }
    while end > 0 && chars[end - 1].is_whitespace()
        invariant
            end <= chars@.len(),
            end_trimmed(chars@.take(end as int)) == end_trimmed(chars@),
        decreases end,
    {
        proof {
            assert(chars@.take(end as int).drop_last() =~= chars@.take(end - 1));
        }
        end -= 1;
    }
    end
}

/// `s` without the whitespace at its end.
pub fn trim_end(s: &str) -> (r: String)
    ensures
        r@ == end_trimmed(s@),
{
    let chars = to_chars(s);
    let end = end_of_text(&chars);
    proof {
        assert(chars@.subrange(0, end as int) =~= chars@.take(end as int));
    }
    from_chars(&chars, 0, end)
}

/// `s` without the whitespace at either end.
pub fn trim(s: &str) -> (r: String)
    ensures
        r@ == trimmed(s@),
{
    let chars = to_chars(s);
    let end = end_of_text(&chars);
    let mut start: usize = 0;
    proof {
        assert(chars@.subrange(0, end as int) =~= chars@.take(end as int));
    }
    while start < end && chars[start].is_whitespace()
        invariant
            start <= end <= chars@.len(),
            start_trimmed(chars@.subrange(start as int, end as int)) == trimmed(chars@),
        decreases end - start,
    {
        proof {
            assert(chars@.subrange(start as int, end as int).drop_first() =~= chars@.subrange(
                start + 1,
                end as int,
            ));
        }
        start += 1;
    }
    from_chars(&chars, start, end)
}

/// A text that is all whitespace is trimmed to nothing, and only such a text is.
pub proof fn blank_text_trims_to_nothing(s: Seq<char>)
    ensures
        blank(s) <==> trimmed(s).len() == 0,
    decreases s.len(),
{
    let e = end_trimmed(s);
    end_trimmed_keeps_prefix(s);
    if e.len() == 0 {
        assert(blank(s));
    } else {
        assert(!is_space(e.last()));
        assert(e.last() == s[e.len() - 1]);
        start_trimmed_stops(e);
    }
}

/// Trimming at the end keeps a prefix, and what it drops is whitespace.
pub proof fn end_trimmed_keeps_prefix(s: Seq<char>)
    ensures
        end_trimmed(s).len() <= s.len(),
        end_trimmed(s) == s.take(end_trimmed(s).len() as int),
        end_trimmed(s).len() > 0 ==> !is_space(end_trimmed(s).last()),
        forall|i: int| end_trimmed(s).len() <= i < s.len() ==> is_space(#[trigger] s[i]),
    decreases s.len(),
{
    if s.len() > 0 && is_space(s.last()) {
        let init = s.drop_last();
        end_trimmed_keeps_prefix(init);
        assert forall|i: int| end_trimmed(s).len() <= i < s.len() implies is_space(
            #[trigger] s[i],
        ) by {
            if i < init.len() {
                assert(s[i] == init[i]);
            }
        }
        assert(init.take(end_trimmed(init).len() as int) =~= s.take(end_trimmed(s).len() as int));
    } else {
        assert(s.take(s.len() as int) =~= s);
    }
}

proof fn start_trimmed_stops(s: Seq<char>)
    requires
        s.len() > 0,
        !is_space(s.last()),
    ensures
        start_trimmed(s).len() > 0,
    decreases s.len(),
{
    if is_space(s[0]) {
        start_trimmed_stops(s.drop_first());
    }
}

/// `parts` one after the other, with `separator` between each two of them.
pub fn join(parts: &Vec<String>, separator: &str) -> (r: String)
    ensures
        r@ == joined(texts(parts@), separator@),
{
    let mut r = String::new();
    let ghost all = texts(parts@);
    let mut i: usize = 0;
    while i < parts.len()
        invariant
            all == texts(parts@),
            i <= parts@.len(),
            r@ == joined(all.take(i as int), separator@),
        decreases parts.len() - i,
    {
        if i > 0 {
            r.append(separator);
        }
        r.append(parts[i].as_str());
        proof {
            assert(all.take(i + 1).drop_last() =~= all.take(i as int));
            assert(all.take(i + 1).last() == parts@[i as int]@);
            if i == 0 {
                assert(r@ =~= all.take(1)[0]);
            }
        }
        i += 1;
    }
    proof {
        assert(all.take(i as int) =~= all);
    }
    r
}

/// The decimal notation of a natural number.
pub fn decimal_digits(n: u64) -> (r: String)
    ensures
        r@ == digits(n as nat),
    decreases n,
{
    let mut r = if n < 10 {
        String::new()
    } else {
        decimal_digits(n / 10)
    };
    let d = (n % 10) as u8;
    r.push((48u8 + d) as char);
    proof {
        if n < 10 {
            assert(r@ =~= seq![digit(n as nat)]);
        }
    }
    r
}

/// The decimal notation of an integer.
pub fn decimal_text(n: i64) -> (r: String)
    requires
        n > i64::MIN,
    ensures
        r@ == decimal(n as int),
{
    if n < 0 {
        let mut r = String::new();
        r.push('-');
        let rest = decimal_digits((-n) as u64);
        r.append(rest.as_str());
        proof {
            assert(r@ =~= seq!['-'] + digits((-n) as nat));
        }
        r
    } else {
        decimal_digits(n as u64)
    }
}

/// `text` where `condition` holds, and nothing where it does not.
pub open spec fn flagged(condition: bool, text: Seq<char>) -> Seq<Seq<char>> {
    if condition {
        seq![text]
    } else {
        Seq::empty()
    }
}

/// The lists `f(0)`, `f(1)` and so on up to `f(n - 1)`, one after the other.
pub open spec fn gathered(n: int, f: spec_fn(int) -> Seq<Seq<char>>) -> Seq<Seq<char>>
    decreases n,
{
    if n <= 0 {
        Seq::empty()
    } else {
        gathered(n - 1, f) + f(n - 1)
    }
}

/// What is gathered is empty if and only if every list is.
pub proof fn nothing_is_gathered(n: int, f: spec_fn(int) -> Seq<Seq<char>>)
    ensures
        gathered(n, f).len() == 0 <==> forall|i: int| 0 <= i < n ==> (#[trigger] f(i)).len() == 0,
    decreases n,
{
    if n > 0 {
        nothing_is_gathered(n - 1, f);
        assert(gathered(n, f).len() == gathered(n - 1, f).len() + f(n - 1).len());
    }
}

/// Adds a text to a list.
pub fn push_text(list: &mut Vec<String>, text: String)
    ensures
        texts(final(list)@) == texts(old(list)@).push(text@),
{
    let ghost before = list@;
    list.push(text);
    proof {
        assert(texts(list@) =~= texts(before).push(text@));
    }
}

/// Adds the texts of a list to another.
pub fn push_all(list: &mut Vec<String>, more: &Vec<String>)
    ensures
        texts(final(list)@) == texts(old(list)@) + texts(more@),
{
    let ghost before = texts(list@);
    let mut i: usize = 0;
    proof {
        assert(before + texts(more@).take(0) =~= before);
    }
    while i < more.len()
        invariant
            i <= more@.len(),
            texts(list@) == before + texts(more@).take(i as int),
        decreases more.len() - i,
    {
        push_text(list, more[i].clone());
        proof {
            assert(before + texts(more@).take(i + 1) =~= (before + texts(more@).take(
                i as int,
            )).push(texts(more@)[i as int]));
        }
        i += 1;
    }
    proof {
        assert(texts(more@).take(i as int) =~= texts(more@));
    }
}

/// A copy of a list of texts.
pub fn copy_texts(list: &Vec<String>) -> (r: Vec<String>)
    ensures
        texts(r@) == texts(list@),
{
    let mut r: Vec<String> = Vec::new();
    push_all(&mut r, list);
    proof {
        assert(texts(r@) =~= texts(list@));
    }
    r
}

/// Two texts, one after the other.
pub fn text2(a: &str, b: &str) -> (r: String)
    ensures
        r@ == a@ + b@,
{
    let mut r = a.to_owned();
    r.append(b);
    r
}

/// Three texts, one after the other.
pub fn text3(a: &str, b: &str, c: &str) -> (r: String)
    ensures
        r@ == a@ + b@ + c@,
{
    let mut r = a.to_owned();
    r.append(b);
    r.append(c);
    r
}

/// Four texts, one after the other.
pub fn text4(a: &str, b: &str, c: &str, d: &str) -> (r: String)
    ensures
        r@ == a@ + b@ + c@ + d@,
{
    let mut r = a.to_owned();
    r.append(b);
    r.append(c);
    r.append(d);
    r
}

/// Five texts, one after the other.
pub fn text5(a: &str, b: &str, c: &str, d: &str, e: &str) -> (r: String)
    ensures
        r@ == a@ + b@ + c@ + d@ + e@,
{
    let mut r = a.to_owned();
    r.append(b);
    r.append(c);
    r.append(d);
    r.append(e);
    r
}

/// Six texts, one after the other.
pub fn text6(a: &str, b: &str, c: &str, d: &str, e: &str, f: &str) -> (r: String)
    ensures
        r@ == a@ + b@ + c@ + d@ + e@ + f@,
{
    let mut r = a.to_owned();
    r.append(b);
    r.append(c);
    r.append(d);
    r.append(e);
    r.append(f);
    r
}

/// Seven texts, one after the other.
pub fn text7(a: &str, b: &str, c: &str, d: &str, e: &str, f: &str, g: &str) -> (r: String)
    ensures
        r@ == a@ + b@ + c@ + d@ + e@ + f@ + g@,
{
    let mut r = a.to_owned();
    r.append(b);
    r.append(c);
    r.append(d);
    r.append(e);
    r.append(f);
    r.append(g);
    r
}

/// Nothing joins to nothing and one part to itself, and two lists of parts that
/// are joined one after the other have one separator between them.
pub proof fn joining_adds_up(first: Seq<Seq<char>>, second: Seq<Seq<char>>, separator: Seq<char>)
    ensures
        joined(Seq::empty(), separator) == Seq::<char>::empty(),
        forall|part: Seq<char>| #[trigger] joined(seq![part], separator) == part,
        first.len() > 0 && second.len() > 0 ==> joined(first + second, separator) == joined(
            first,
            separator,
        ) + separator + joined(second, separator),
    decreases second.len(),
{
    if first.len() > 0 && second.len() > 0 {
        let init = second.drop_last();
        assert((first + second).drop_last() =~= first + init);
        if init.len() > 0 {
            joining_adds_up(first, init, separator);
        } else {
            assert(first + init =~= first);
        }
        assert(joined(first + second, separator) =~= joined(first, separator) + separator + joined(
            second,
            separator,
        ));
    }
}

/// The number that a list of decimal digits stands for.
pub open spec fn number(text: Seq<char>) -> int
    decreases text.len(),
{
    if text.len() == 0 {
        0
    } else {
        10 * number(text.drop_last()) + (text.last() as int - '0' as int)
    }
}

/// The digits of a number are decimal digits, stand for it, and do not begin
/// with a zero unless they are nothing else.
pub proof fn digits_stand_for_the_number(n: nat)
    ensures
        number(digits(n)) == n,
        digits(n).len() > 0,
        forall|i: int| 0 <= i < digits(n).len() ==> '0' <= #[trigger] digits(n)[i] && digits(n)[i] <= '9',
        digits(n)[0] == '0' ==> n == 0 && digits(n) == seq!['0'],
    decreases n,
{
    digit_of(n % 10);
    if n < 10 {
        digit_of(n);
        let text = digits(n);
        assert(text.drop_last() =~= Seq::empty());
        assert(number(text.drop_last()) == 0);
        if text[0] == '0' {
            assert(text =~= seq!['0']);
        }
    } else {
        let front = digits(n / 10);
        digits_stand_for_the_number(n / 10);
        assert(digits(n).drop_last() =~= front);
        assert(digits(n)[0] == front[0]);
    }
}

proof fn digit_of(d: nat)
    requires
        d < 10,
    ensures
        '0' <= digit(d) && digit(d) <= '9',
        digit(d) as int - '0' as int == d,
        digit(d) == '0' <==> d == 0,
{
    assert(digit(d) as int == 48 + d);
}

/// Numbers that are written alike are the same.
pub proof fn digits_tell_numbers_apart(n: nat, m: nat)
    ensures
        digits(n) == digits(m) <==> n == m,
{
    digits_stand_for_the_number(n);
    digits_stand_for_the_number(m);
}

/// A number is written with its sign where it is negative, and without one else.
pub proof fn decimal_has_its_sign(n: int)
    ensures
        n >= 0 ==> decimal(n) == digits(n as nat),
        n < 0 ==> decimal(n).len() > 0 && decimal(n)[0] == '-' && decimal(n).skip(1) == digits(
            (-n) as nat,
        ),
{
    if n < 0 {
        assert(decimal(n).skip(1) =~= digits((-n) as nat));
    }
}

/// What is whitespace in ASCII.
pub proof fn ascii_whitespace(c: char)
    requires
        c <= '\u{7f}',
    ensures
        is_space(c) <==> c == ' ' || c == '\t' || c == '\n' || c == '\u{b}' || c == '\u{c}' || c
            == '\r',
{
}

/// Trimming at the start keeps the end, and what it drops is whitespace.
pub proof fn start_trimmed_keeps_suffix(s: Seq<char>)
    ensures
        start_trimmed(s).len() <= s.len(),
        start_trimmed(s) == s.skip(s.len() - start_trimmed(s).len()),
        start_trimmed(s).len() > 0 ==> !is_space(start_trimmed(s)[0]),
        forall|i: int|
            0 <= i < s.len() - start_trimmed(s).len() ==> is_space(#[trigger] s[i]),
    decreases s.len(),
{
    if s.len() > 0 && is_space(s[0]) {
        let rest = s.drop_first();
        start_trimmed_keeps_suffix(rest);
        let dropped = s.len() - start_trimmed(s).len();
        assert(rest.skip(dropped - 1) =~= s.skip(dropped));
        assert forall|i: int| 0 <= i < dropped implies is_space(#[trigger] s[i]) by {
            if i > 0 {
                assert(s[i] == rest[i - 1]);
            }
        }
    } else {
        assert(s.skip(0) =~= s);
    }
}

/// Trimming gives a part of the text that neither begins nor ends with
/// whitespace, and all that stood around it is whitespace.
pub proof fn trimming_drops_whitespace_only(s: Seq<char>)
    ensures
        exists|from: int, to: int|
            #![trigger s.subrange(from, to)]
            {
                &&& 0 <= from <= to <= s.len()
                &&& trimmed(s) == s.subrange(from, to)
                &&& blank(s.take(from))
                &&& blank(s.skip(to))
            },
        trimmed(s).len() > 0 ==> !is_space(trimmed(s)[0]) && !is_space(trimmed(s).last()),
{
    let e = end_trimmed(s);
    end_trimmed_keeps_prefix(s);
    start_trimmed_keeps_suffix(e);
    let to = e.len() as int;
    let from = to - trimmed(s).len();
    assert(trimmed(s) =~= s.subrange(from, to));
    assert forall|i: int| 0 <= i < from implies is_space(#[trigger] s.take(from)[i]) by {
        assert(e[i] == s[i]);
    }
    assert forall|i: int| 0 <= i < s.len() - to implies is_space(#[trigger] s.skip(to)[i]) by {
        assert(s[i + to] == s.skip(to)[i]);
    }
}

/// A text is blank if and only if no character of it is other than whitespace.
pub proof fn blank_texts(s: Seq<char>, c: char)
    ensures
        blank(Seq::empty()),
        blank(s.push(c)) <==> blank(s) && is_space(c),
{
    if blank(s.push(c)) {
        assert(s.push(c)[s.len() as int] == c);
        assert forall|i: int| 0 <= i < s.len() implies is_space(#[trigger] s[i]) by {
            assert(s.push(c)[i] == s[i]);
        }
    }
}

/// A text comes before every longer one that begins with it, and two texts that
/// first differ in a character are in the order of that.
pub proof fn first_difference_orders(start: Seq<char>, a: Seq<char>, b: Seq<char>)
    requires
        b.len() > 0,
        a.len() > 0 ==> a[0] < b[0],
    ensures
        precedes(start + a, start + b),
        !precedes(start + b, start + a),
    decreases start.len(),
{
    if start.len() > 0 {
        first_difference_orders(start.drop_first(), a, b);
        assert((start + a).drop_first() =~= start.drop_first() + a);
        assert((start + b).drop_first() =~= start.drop_first() + b);
    } else {
        assert(start + a =~= a);
        assert(start + b =~= b);
    }
}

/// A list of lists that is gathered holds what one of them holds, and nothing
/// else.
pub proof fn gathered_holds_each(n: int, f: spec_fn(int) -> Seq<Seq<char>>, text: Seq<char>)
    ensures
        gathered(n, f).contains(text) <==> exists|i: int| 0 <= i < n && (#[trigger] f(i)).contains(text),
    decreases n,
{
    if n > 0 {
        gathered_holds_each(n - 1, f, text);
        both_hold(gathered(n - 1, f), f(n - 1), text);
        if gathered(n - 1, f).contains(text) {
            let i = choose|i: int| 0 <= i < n - 1 && (#[trigger] f(i)).contains(text);
            assert(f(i).contains(text));
        }
        if exists|i: int| 0 <= i < n && (#[trigger] f(i)).contains(text) {
            let i = choose|i: int| 0 <= i < n && (#[trigger] f(i)).contains(text);
            if i < n - 1 {
                assert(f(i).contains(text));
            }
        }
    }
}

/// Two lists one after the other hold what one of them holds.
pub proof fn both_hold<A>(first: Seq<A>, second: Seq<A>, item: A)
    ensures
        (first + second).contains(item) <==> first.contains(item) || second.contains(item),
{
    let both = first + second;
    if first.contains(item) {
        let i = first.index_of(item);
        assert(both[i] == item);
    }
    if second.contains(item) {
        let i = second.index_of(item);
        assert(both[first.len() + i] == item);
    }
    if both.contains(item) {
        let i = both.index_of(item);
        if i < first.len() {
            assert(first[i] == item);
        } else {
            assert(second[i - first.len()] == item);
        }
    }
}

} // verus!
