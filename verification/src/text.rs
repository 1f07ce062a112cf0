//! Text building blocks for SQL statements and messages.
//!
//! Every function here is stated over `Seq<char>`, the view of `str` and
//! `String`, so that the statement builders can say exactly which text they
//! produce.

use vstd::prelude::*;
use vstd::string::*;

verus! {

/// The text with every single quote doubled, as an SQL string literal needs it.
pub open spec fn escaped(s: Seq<char>) -> Seq<char>
    decreases s.len(),
{
    if s.len() == 0 {
        Seq::empty()
    } else if s.last() == '\'' {
        escaped(s.drop_last()).push('\'').push('\'')
    } else {
        escaped(s.drop_last()).push(s.last())
    }
}

/// The SQL string literal that stands for `s`: escaped, between single quotes.
pub open spec fn quoted(s: Seq<char>) -> Seq<char> {
    seq!['\''] + escaped(s) + seq!['\'']
}

/// What SQL reads of a string literal after its opening quote: the value up to
/// the closing quote, with each doubled quote as one, and the text that
/// follows the closing quote. None where the literal does not end.
pub open spec fn read_literal(t: Seq<char>) -> Option<(Seq<char>, Seq<char>)>
    decreases t.len(),
{
    if t.len() == 0 {
        None
    } else if t[0] != '\'' {
        match read_literal(t.skip(1)) {
            Some((value, rest)) => Some((seq![t[0]] + value, rest)),
            None => None,
        }
    } else if t.len() >= 2 && t[1] == '\'' {
        match read_literal(t.skip(2)) {
            Some((value, rest)) => Some((seq!['\''] + value, rest)),
            None => None,
        }
    } else {
        Some((Seq::empty(), t.skip(1)))
    }
}

/// The character of one decimal digit.
pub open spec fn digit_char(d: nat) -> char {
    if d == 0 {
        '0'
    } else if d == 1 {
        '1'
    } else if d == 2 {
        '2'
    } else if d == 3 {
        '3'
    } else if d == 4 {
        '4'
    } else if d == 5 {
        '5'
    } else if d == 6 {
        '6'
    } else if d == 7 {
        '7'
    } else if d == 8 {
        '8'
    } else {
        '9'
    }
}

/// The decimal digits of a natural number, most significant first, without
/// leading zeros.
pub open spec fn digits(n: nat) -> Seq<char>
    decreases n,
{
    if n < 10 {
        seq![digit_char(n)]
    } else {
        digits(n / 10).push(digit_char(n % 10))
    }
}

/// The decimal text of an integer, with a minus sign in front of a negative one.
pub open spec fn decimal(n: int) -> Seq<char> {
    if n < 0 {
        seq!['-'] + digits((-n) as nat)
    } else {
        digits(n as nat)
    }
}

/// The parts written one after another with `sep` between neighbours.
pub open spec fn joined(parts: Seq<Seq<char>>, sep: Seq<char>) -> Seq<char>
    decreases parts.len(),
{
    if parts.len() == 0 {
        Seq::empty()
    } else if parts.len() == 1 {
        parts[0]
    } else {
        joined(parts.drop_last(), sep) + sep + parts.last()
    }
}

/// The views of a list of strings.
pub open spec fn views(parts: Seq<String>) -> Seq<Seq<char>> {
    Seq::new(parts.len(), |i: int| parts[i]@)
}

/// What follows the last `sep` in `s`; all of `s` where it holds no `sep`.
pub open spec fn after_last(s: Seq<char>, sep: char) -> Seq<char>
    decreases s.len(),
{
    if s.len() == 0 {
        Seq::empty()
    } else if s.last() == sep {
        Seq::empty()
    } else {
        after_last(s.drop_last(), sep).push(s.last())
    }
}

/// `pat` stands somewhere in `s` as a contiguous run of characters.
pub open spec fn occurs_in(pat: Seq<char>, s: Seq<char>) -> bool {
    exists|i: int| occurs_at(pat, s, i)
}

/// `pat` stands in `s` at position `i`.
pub open spec fn occurs_at(pat: Seq<char>, s: Seq<char>, i: int) -> bool {
    0 <= i && i + pat.len() <= s.len() && s.subrange(i, i + pat.len()) == pat
}

/// The lowercase form that `str::to_lowercase` gives a text.
pub uninterp spec fn lowercase(s: Seq<char>) -> Seq<char>;

/// The characters that count as white space: those with the Unicode property
/// `White_Space`.
pub open spec fn is_white_space(c: char) -> bool {
    let code = c as u32;
    ||| 0x09 <= code <= 0x0D
    ||| code == 0x20
    ||| code == 0x85
    ||| code == 0xA0
    ||| code == 0x1680
    ||| 0x2000 <= code <= 0x200A
    ||| code == 0x2028
    ||| code == 0x2029
    ||| code == 0x202F
    ||| code == 0x205F
    ||| code == 0x3000
}

/// The text without the white space at its front.
pub open spec fn trimmed_front(s: Seq<char>) -> Seq<char>
    decreases s.len(),
{
    if s.len() > 0 && is_white_space(s[0]) {
        trimmed_front(s.skip(1))
    } else {
        s
    }
}

/// The text without the white space at its back.
pub open spec fn trimmed_back(s: Seq<char>) -> Seq<char>
    decreases s.len(),
{
    if s.len() > 0 && is_white_space(s.last()) {
        trimmed_back(s.drop_last())
    } else {
        s
    }
}

/// The text without the white space at its two ends.
pub open spec fn trimmed(s: Seq<char>) -> Seq<char> {
    trimmed_back(trimmed_front(s))
}

/// Trimming at the back leaves a text that begins with something else than
/// white space as long as it was, or shorter, but never empty.
proof fn lemma_trimmed_back_keeps_front(s: Seq<char>)
    requires
        s.len() > 0,
        !is_white_space(s[0]),
    ensures
        trimmed_back(s).len() > 0,
    decreases s.len(),
{
    if is_white_space(s.last()) {
        assert(s.len() > 1);
        assert(s.drop_last()[0] == s[0]);
        lemma_trimmed_back_keeps_front(s.drop_last());
    }
}

/// Trimming at the front leaves nothing exactly of a text that is all white
/// space, and otherwise a text that begins with something else.
proof fn lemma_trimmed_front(s: Seq<char>)
    ensures
        trimmed_front(s).len() == 0 <==> forall|i: int| 0 <= i < s.len() ==> is_white_space(s[i]),
        trimmed_front(s).len() > 0 ==> !is_white_space(trimmed_front(s)[0]),
    decreases s.len(),
{
    if s.len() > 0 && is_white_space(s[0]) {
        let rest = s.skip(1);
        lemma_trimmed_front(rest);
        if forall|i: int| 0 <= i < rest.len() ==> is_white_space(rest[i]) {
            assert forall|i: int| 0 <= i < s.len() implies is_white_space(s[i]) by {
                if i > 0 {
                    assert(rest[i - 1] == s[i]);
                }
            }
        }
        if forall|i: int| 0 <= i < s.len() ==> is_white_space(s[i]) {
            assert forall|i: int| 0 <= i < rest.len() implies is_white_space(rest[i]) by {
                assert(rest[i] == s[i + 1]);
            }
        }
    }
}

/// A text is trimmed to nothing exactly if it holds nothing but white space.
pub proof fn law_blank_texts_trim_to_nothing(s: Seq<char>)
    ensures
        trimmed(s).len() == 0 <==> forall|i: int| 0 <= i < s.len() ==> is_white_space(s[i]),
{
    lemma_trimmed_front(s);
    if trimmed_front(s).len() > 0 {
        lemma_trimmed_back_keeps_front(trimmed_front(s));
    }
}

/// Escaping goes character by character, from the front as from the back.
pub proof fn lemma_escaped_front(c: char, s: Seq<char>)
    ensures
        escaped(seq![c] + s) == escaped(seq![c]) + escaped(s),
    decreases s.len(),
{
    if s.len() == 0 {
        assert(seq![c] + s == seq![c]);
        assert(escaped(seq![c]) + escaped(s) == escaped(seq![c]));
    } else {
        let whole = seq![c] + s;
        assert(whole.drop_last() == seq![c] + s.drop_last());
        assert(whole.last() == s.last());
        lemma_escaped_front(c, s.drop_last());
        if s.last() == '\'' {
            assert(escaped(whole) == (escaped(seq![c]) + escaped(s.drop_last())).push('\'').push(
                '\'',
            ));
            assert(escaped(whole) == escaped(seq![c]) + escaped(s));
        } else {
            assert(escaped(whole) == (escaped(seq![c]) + escaped(s.drop_last())).push(s.last()));
            assert(escaped(whole) == escaped(seq![c]) + escaped(s));
        }
    }
}

/// An escaped value, its closing quote and what follows are read back as the
/// value and what follows.
proof fn lemma_escaped_reads_back(s: Seq<char>, rest: Seq<char>)
    requires
        rest.len() == 0 || rest[0] != '\'',
    ensures
        read_literal(escaped(s) + seq!['\''] + rest) == Some((s, rest)),
    decreases s.len(),
{
    let text = escaped(s) + seq!['\''] + rest;
    if s.len() == 0 {
        assert(text == seq!['\''] + rest);
        assert(text.skip(1) == rest);
    } else {
        let c = s[0];
        let tail = s.skip(1);
        assert(s == seq![c] + tail);
        lemma_escaped_front(c, tail);
        lemma_escaped_reads_back(tail, rest);
        let after = escaped(tail) + seq!['\''] + rest;
        let one = seq![c];
        assert(one.drop_last() == Seq::<char>::empty());
        assert(escaped(one.drop_last()) == Seq::<char>::empty());
        assert(one.last() == c);
        if c == '\'' {
            assert(escaped(one) == Seq::<char>::empty().push('\'').push('\''));
            assert(escaped(seq![c]) == seq!['\'', '\'']);
            assert(text == seq!['\'', '\''] + after);
            assert(text.skip(2) == after);
            assert(seq!['\''] + tail == s);
        } else {
            assert(escaped(one) == Seq::<char>::empty().push(c));
            assert(escaped(seq![c]) == seq![c]);
            assert(text == seq![c] + after);
            assert(text.skip(1) == after);
        }
    }
}

/// A quoted value is read back as itself: whatever follows the literal, SQL
/// reads the value that was quoted and leaves what follows untouched, so no
/// value can end its literal early. What follows must not begin with a
/// quote, which would double the closing one.
pub proof fn law_quoted_reads_back(s: Seq<char>, rest: Seq<char>)
    requires
        rest.len() == 0 || rest[0] != '\'',
    ensures
        (quoted(s) + rest)[0] == '\'',
        read_literal((quoted(s) + rest).skip(1)) == Some((s, rest)),
{
    lemma_escaped_reads_back(s, rest);
    assert((quoted(s) + rest).skip(1) == escaped(s) + seq!['\''] + rest);
}

/// `String::push` of the standard library: appends one character.
#[verifier::external_body]
fn push_char(s: &mut String, c: char)
    ensures
        final(s)@ == old(s)@.push(c),
{
    s.push(c)
}

/// `str::to_lowercase` of the standard library. The mapping follows the
/// Unicode tables, so the result only has a name here; every character maps
/// to at least one character, hence a text that is not empty stays so.
#[verifier::external_body]
pub(crate) fn to_lower(s: &str) -> (r: String)
    ensures
        r@ == lowercase(s@),
        s@.len() > 0 ==> r@.len() > 0,
{
    s.to_lowercase()
}

/// `str::trim` of the standard library: the text without the white space at
/// its two ends, where white space is what Unicode gives the property
/// `White_Space`.
#[verifier::external_body]
pub(crate) fn trim_text(s: &str) -> (r: &str)
    ensures
        r@ == trimmed(s@),
{
    s.trim()
}

/// The characters of a text, one by one.
pub fn chars_of(s: &str) -> (r: Vec<char>)
    ensures
        r@ == s@,
{
    broadcast use vstd::string::group_string_axioms;

    let mut out: Vec<char> = Vec::new();
    for c in it: s.chars()
        invariant
            it.seq() == s@,
            out@ == s@.take(it.index()),
    {
        out.push(c);
    }
    assert(s@.take(s@.len() as int) == s@);
    out
}

/// Doubles every single quote of `s`.
pub fn escape_sql(s: &str) -> (r: String)
    ensures
        r@ == escaped(s@),
{
    broadcast use vstd::string::group_string_axioms;

    let mut out = String::new();
    for c in it: s.chars()
        invariant
            it.seq() == s@,
            out@ == escaped(s@.take(it.index())),
    {
        assert(s@.take(it.index() + 1).drop_last() == s@.take(it.index()));
        if c == '\'' {
            push_char(&mut out, '\'');
            push_char(&mut out, '\'');
        } else {
            push_char(&mut out, c);
        }
    }
    assert(s@.take(s@.len() as int) == s@);
    out
}

/// The SQL string literal for `s`.
pub fn quote_sql(s: &str) -> (r: String)
    ensures
        r@ == quoted(s@),
{
    let mut out = String::new();
    push_char(&mut out, '\'');
    let body = escape_sql(s);
    out.append(body.as_str());
    push_char(&mut out, '\'');
    assert(out@ == quoted(s@));
    out
}

fn digit_of(d: u64) -> (c: char)
    requires
        d < 10,
    ensures
        c == digit_char(d as nat),
{
    if d == 0 {
        '0'
    } else if d == 1 {
        '1'
    } else if d == 2 {
        '2'
    } else if d == 3 {
        '3'
    } else if d == 4 {
        '4'
    } else if d == 5 {
        '5'
    } else if d == 6 {
        '6'
    } else if d == 7 {
        '7'
    } else if d == 8 {
        '8'
    } else {
        '9'
    }
}

/// Appends the decimal digits of `n` to `out`.
fn append_digits(out: &mut String, n: u64)
    ensures
        final(out)@ == old(out)@ + digits(n as nat),
{
    let mut low: Vec<char> = Vec::new();
    let mut m: u64 = n;
    while m >= 10
        invariant
            digits(n as nat) == digits(m as nat) + low@.reverse(),
        decreases m,
    {
        let d = digit_of(m % 10);
        proof {
            assert(low@.push(d).reverse() == seq![d] + low@.reverse());
            assert(digits(m as nat) == digits((m / 10) as nat).push(d));
            assert(digits((m / 10) as nat).push(d) + low@.reverse() == digits((m / 10) as nat) + (
            seq![d] + low@.reverse()));
        }
        low.push(d);
        m = m / 10;
    }
    push_char(out, digit_of(m));
    let mut k: usize = low.len();
    while k > 0
        invariant
            k <= low.len(),
            out@ == old(out)@ + digits(m as nat) + low@.reverse().take(low.len() - k),
        decreases k,
    {
        k = k - 1;
        assert(low@.reverse().take(low.len() - k) == low@.reverse().take(low.len() - k - 1).push(
            low@[k as int],
        ));
        push_char(out, low[k]);
    }
    assert(low@.reverse().take(low.len() as int) == low@.reverse());
    assert(out@ == old(out)@ + (digits(m as nat) + low@.reverse()));
}

/// The decimal text of an unsigned number.
pub fn decimal_u64(n: u64) -> (r: String)
    ensures
        r@ == decimal(n as int),
{
    let mut out = String::new();
    append_digits(&mut out, n);
    out
}

/// The decimal text of a signed number.
pub fn decimal_i64(n: i64) -> (r: String)
    ensures
        r@ == decimal(n as int),
{
    let mut out = String::new();
    if n < 0 {
        push_char(&mut out, '-');
        let magnitude: u64 = ((-(n + 1)) as u64) + 1;
        append_digits(&mut out, magnitude);
    } else {
        append_digits(&mut out, n as u64);
    }
    out
}

/// The decimal text of a count.
pub fn decimal_usize(n: usize) -> (r: String)
    ensures
        r@ == decimal(n as int),
{
    decimal_u64(n as u64)
}

/// Writes the parts one after another with `sep` between neighbours.
pub fn join_with(parts: &Vec<String>, sep: &str) -> (r: String)
    ensures
        r@ == joined(views(parts@), sep@),
{
    let mut out = String::new();
    let ghost all = views(parts@);
    let mut i: usize = 0;
    while i < parts.len()
        invariant
            i <= parts.len(),
            all == views(parts@),
            out@ == joined(all.take(i as int), sep@),
        decreases parts.len() - i,
    {
        proof {
            assert(all.take(i + 1).drop_last() == all.take(i as int));
            assert(all.take(i + 1).last() == parts[i as int]@);
            if i == 0 {
                assert(all.take(1)[0] == parts[0]@);
            }
        }
        if i > 0 {
            out.append(sep);
        }
        out.append(parts[i].as_str());
        i = i + 1;
    }
    assert(all.take(parts.len() as int) == all);
    out
}

/// What follows the last `sep` in `s`, and whether `s` holds a `sep` at all.
pub fn split_last(s: &str, sep: char) -> (r: (String, bool))
    ensures
        r.0@ == after_last(s@, sep),
        r.1 == s@.contains(sep),
{
    broadcast use vstd::string::group_string_axioms;

    let mut out = String::new();
    let mut found = false;
    for c in it: s.chars()
        invariant
            it.seq() == s@,
            out@ == after_last(s@.take(it.index()), sep),
            found == s@.take(it.index()).contains(sep),
    {
        proof {
            let before = s@.take(it.index());
            let now = s@.take(it.index() + 1);
            assert(now.drop_last() == before);
            assert(now.last() == c);
            if c == sep {
                assert(now[it.index()] == sep);
            } else if before.contains(sep) {
                let j: int = choose|j: int| 0 <= j < before.len() && before[j] == sep;
                assert(now[j] == sep);
            } else if now.contains(sep) {
                let j: int = choose|j: int| 0 <= j < now.len() && now[j] == sep;
                assert(before[j] == sep);
            }
        }
        if c == sep {
            out = String::new();
            found = true;
        } else {
            push_char(&mut out, c);
        }
    }
    assert(s@.take(s@.len() as int) == s@);
    (out, found)
}

/// Whether `pat` stands somewhere in `s`.
pub fn contains_text(s: &str, pat: &str) -> (r: bool)
    ensures
        r == occurs_in(pat@, s@),
{
    let hay = chars_of(s);
    let needle = chars_of(pat);
    if needle.len() > hay.len() {
        assert(forall|i: int| !occurs_at(pat@, s@, i));
        return false;
    }
    let last: usize = hay.len() - needle.len();
    let mut i: usize = 0;
    while i <= last
        invariant
            hay@ == s@,
            needle@ == pat@,
            last == hay.len() - needle.len(),
            i <= last + 1,
            forall|j: int| 0 <= j < i ==> !occurs_at(pat@, s@, j),
        decreases last + 1 - i,
    {
        let mut k: usize = 0;
        while k < needle.len() && hay[i + k] == needle[k]
            invariant
                hay@ == s@,
                needle@ == pat@,
                last == hay.len() - needle.len(),
                i <= last,
                k <= needle.len(),
                forall|t: int| 0 <= t < k ==> hay@[i + t] == needle@[t],
            decreases needle.len() - k,
        {
            k = k + 1;
        }
        if k == needle.len() {
            assert(s@.subrange(i as int, i + pat@.len()) == pat@);
            assert(occurs_at(pat@, s@, i as int));
            return true;
        }
        proof {
            if occurs_at(pat@, s@, i as int) {
                assert(s@.subrange(i as int, i + pat@.len())[k as int] == pat@[k as int]);
            }
        }
        i = i + 1;
    }
    assert(forall|j: int| !occurs_at(pat@, s@, j));
    false
}

/// Two texts written one after the other.
pub fn concat2(a: &str, b: &str) -> (r: String)
    ensures
        r@ == a@ + b@,
{
    let mut out = String::from_str(a);
    out.append(b);
    out
}

/// Three texts written one after the other.
pub fn concat3(a: &str, b: &str, c: &str) -> (r: String)
    ensures
        r@ == a@ + b@ + c@,
{
    let mut out = String::from_str(a);
    out.append(b);
    out.append(c);
    out
}

} // verus!
