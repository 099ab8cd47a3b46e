//! Escaping of input data and its substitution into source code.

use crate::runner::PythonRunner;
use vstd::prelude::*;
use vstd::string::StringExecFns;

verus! {

/// Characters that close a quoted literal or start an escape inside one.
pub open spec fn is_special(c: char) -> bool {
    c == '\\' || c == '"' || c == '\''
}

/// What one character of the input becomes.
pub open spec fn escaped_char(c: char) -> Seq<char> {
    if is_special(c) {
        seq!['\\', c]
    } else {
        seq![c]
    }
}

/// The input with a backslash put in front of every special character.
pub open spec fn escaped(s: Seq<char>) -> Seq<char>
    decreases s.len(),
{
    if s.len() == 0 {
        Seq::empty()
    } else {
        escaped(s.drop_last()) + escaped_char(s.last())
    }
}

/// The token in source code that stands for the input data.
pub open spec fn placeholder() -> Seq<char> {
    "{{csv}}"@
}

/// `text` with every occurrence of `pat` replaced by `with`, going from left
/// to right and never looking again at what was already replaced. An empty
/// `pat` occurs nowhere.
pub open spec fn replaced(text: Seq<char>, pat: Seq<char>, with: Seq<char>) -> Seq<char>
    decreases text.len(),
{
    if pat.len() == 0 || text.len() < pat.len() {
        text
    } else if text.take(pat.len() as int) == pat {
        with + replaced(text.skip(pat.len() as int), pat, with)
    } else {
        text.take(1) + replaced(text.skip(1), pat, with)
    }
}

/// The program text that is executed for `code` and input data `csv`.
pub open spec fn substituted(code: Seq<char>, csv: Seq<char>) -> Seq<char> {
    replaced(code, placeholder(), escaped(csv))
}

/// `pat` stands in `text` at position `at`.
pub open spec fn occurs_at(text: Seq<char>, pat: Seq<char>, at: int) -> bool {
    0 <= at && at + pat.len() <= text.len() && text.subrange(at, at + pat.len()) == pat
}

/// `pat` stands somewhere in `text`.
pub open spec fn occurs(text: Seq<char>, pat: Seq<char>) -> bool {
    exists|at: int| occurs_at(text, pat, at)
}

/// Reads `body` as the inside of a literal that `quote` would close, with a
/// backslash taking the character after it along. True when the reader comes
/// to the end of `body` still inside the literal and with no escape pending.
pub open spec fn stays_inside(body: Seq<char>, quote: char) -> bool
    decreases body.len(),
{
    if body.len() == 0 {
        true
    } else if body[0] == '\\' {
        body.len() >= 2 && stays_inside(body.skip(2), quote)
    } else if body[0] == quote {
        false
    } else {
        stays_inside(body.skip(1), quote)
    }
}

/// What a reader of the literal takes `body` to say: every escaping backslash
/// is dropped and the character after it kept.
pub open spec fn unescaped(body: Seq<char>) -> Seq<char>
    decreases body.len(),
{
    if body.len() == 0 {
        Seq::empty()
    } else if body[0] == '\\' && body.len() >= 2 {
        seq![body[1]] + unescaped(body.skip(2))
    } else {
        seq![body[0]] + unescaped(body.skip(1))
    }
}

/// The characters of a string slice, in order.
fn chars_of(text: &str) -> (out: Vec<char>)
    ensures
        out@ == text@,
{
    broadcast use vstd::string::group_string_axioms;

    let mut out: Vec<char> = Vec::new();
    let chars = text.chars();
    for c in it: chars
        invariant
            it.seq() == text@,
            out@ == it.seq().take(it.index()),
    {
        out.push(c);
        assert(it.seq().take(it.index() + 1) == it.seq().take(it.index()).push(c));
    }
    assert(out@ == text@);
    out
}

/// Tells whether `pat` stands in `text` at position `at`.
fn matches_at(text: &Vec<char>, at: usize, pat: &Vec<char>) -> (found: bool)
    requires
        at + pat.len() <= text.len(),
    ensures
        found == occurs_at(text@, pat@, at as int),
{
    let mut k: usize = 0;
    while k < pat.len()
        invariant
            at + pat.len() <= text.len(),
            k <= pat.len(),
            forall|j: int| 0 <= j < k ==> text@[at + j] == pat@[j],
        decreases pat.len() - k,
    {
        if text[at + k] != pat[k] {
            assert(text@.subrange(at as int, at + pat.len())[k as int] != pat@[k as int]);
            return false;
        }
        k += 1;
    }
    assert(text@.subrange(at as int, at + pat.len()) =~= pat@);
    true
}

/// Replaces every occurrence of `pat` in `text` by `with`.
pub fn replace_all(text: &str, pat: &str, with: &str) -> (out: String)
    ensures
        out@ == replaced(text@, pat@, with@),
{
    let t = chars_of(text);
    let p = chars_of(pat);
    if p.len() == 0 {
        return text.to_owned();
    }
    let mut out = String::new();
    let mut i: usize = 0;
    assert(t@.skip(0) == t@);
    while i < t.len()
        invariant
            i <= t.len(),
            p.len() > 0,
            out@ + replaced(t@.skip(i as int), p@, with@) == replaced(t@, p@, with@),
        decreases t.len() - i,
    {
        let ghost rest = t@.skip(i as int);
        if t.len() - i >= p.len() && matches_at(&t, i, &p) {
            assert(rest.take(p.len() as int) == t@.subrange(i as int, i + p.len()));
            assert(rest.skip(p.len() as int) == t@.skip(i + p.len()));
            out.append(with);
            i += p.len();
        } else {
            if t.len() - i >= p.len() {
                assert(rest.take(p.len() as int) == t@.subrange(i as int, i + p.len()));
            }
            assert(rest.take(1) == seq![t@[i as int]]);
            assert(rest.skip(1) == t@.skip(i + 1));
            assert(rest.take(1) + rest.skip(1) == rest);
            out.push(t[i]);
            i += 1;
        }
    }
    out
}

impl PythonRunner {
    /// Puts a backslash in front of every backslash, double quote and single
    /// quote of the input data.
    pub fn escape_csv(csv: &str) -> (out: String)
        ensures
            out@ == escaped(csv@),
    {
        broadcast use vstd::string::group_string_axioms;

        let mut out = String::new();
        let chars = csv.chars();
        for c in it: chars
            invariant
                it.seq() == csv@,
                out@ == escaped(it.seq().take(it.index())),
        {
            let ghost done = it.seq().take(it.index());
            let ghost next = it.seq().take(it.index() + 1);
            assert(next.drop_last() == done);
            assert(next.last() == c);
            if c == '\\' || c == '"' || c == '\'' {
                out.push('\\');
            }
            out.push(c);
            assert(out@ == escaped(done) + escaped_char(c));
        }
        assert(csv@.take(csv@.len() as int) == csv@);
        out
    }
}

/// Puts the escaped input data in the place of every placeholder of `code`.
pub fn substitute_csv(code: &str, csv: &str) -> (out: String)
    ensures
        out@ == substituted(code@, csv@),
{
    let data = PythonRunner::escape_csv(csv);
    replace_all(code, "{{csv}}", data.as_str())
}

/// Escaping goes character by character: the escaped form of two texts put
/// together is their escaped forms put together.
pub proof fn lemma_escaped_concat(a: Seq<char>, b: Seq<char>)
    ensures
        escaped(a + b) == escaped(a) + escaped(b),
    decreases b.len(),
{
    if b.len() == 0 {
        assert(a + b == a);
    } else {
        assert((a + b).drop_last() == a + b.drop_last());
        assert((a + b).last() == b.last());
        lemma_escaped_concat(a, b.drop_last());
    }
}

/// The escaped form of a text, taken from its first character on.
pub proof fn lemma_escaped_first(s: Seq<char>)
    requires
        s.len() > 0,
    ensures
        escaped(s) == escaped_char(s[0]) + escaped(s.skip(1)),
{
    let head = seq![s[0]];
    assert(head + s.skip(1) == s);
    lemma_escaped_concat(head, s.skip(1));
    assert(head.drop_last() == Seq::<char>::empty());
    assert(escaped(head) == escaped(head.drop_last()) + escaped_char(head.last()));
    assert(escaped(head) == escaped_char(s[0]));
}

/// A text that is left as it is where the pattern stands nowhere in it.
pub proof fn lemma_replaced_without_occurrence(text: Seq<char>, pat: Seq<char>, with: Seq<char>)
    requires
        !occurs(text, pat),
    ensures
        replaced(text, pat, with) == text,
    decreases text.len(),
{
    if pat.len() == 0 || text.len() < pat.len() {
    } else if text.take(pat.len() as int) == pat {
        assert(text.subrange(0, 0int + pat.len()) == text.take(pat.len() as int));
        assert(occurs_at(text, pat, 0));
    } else {
        let tail = text.skip(1);
        assert forall|at: int| !occurs_at(tail, pat, at) by {
            if occurs_at(tail, pat, at) {
                assert(tail.subrange(at, at + pat.len()) == text.subrange(
                    at + 1,
                    at + 1 + pat.len(),
                ));
                assert(occurs_at(text, pat, at + 1));
            }
        }
        lemma_replaced_without_occurrence(tail, pat, with);
        assert(text.take(1) + tail == text);
    }
}

/// Law: source code that holds no placeholder is executed as it stands, so
/// nothing of the input data reaches the program text.
pub proof fn lemma_source_without_placeholder(code: Seq<char>, csv: Seq<char>)
    requires
        !occurs(code, placeholder()),
    ensures
        substituted(code, csv) == code,
{
    lemma_replaced_without_occurrence(code, placeholder(), escaped(csv));
}

/// A reader that is inside the literal after `a` goes on through `b` as if
/// `b` stood there alone.
pub proof fn lemma_stays_inside_concat(a: Seq<char>, b: Seq<char>, quote: char)
    requires
        stays_inside(a, quote),
    ensures
        stays_inside(a + b, quote) == stays_inside(b, quote),
    decreases a.len(),
{
    if a.len() == 0 {
        assert(a + b == b);
    } else if a[0] == '\\' {
        assert((a + b).skip(2) == a.skip(2) + b);
        lemma_stays_inside_concat(a.skip(2), b, quote);
    } else {
        assert((a + b).skip(1) == a.skip(1) + b);
        lemma_stays_inside_concat(a.skip(1), b, quote);
    }
}

/// Escaped input data never closes a literal, whichever quote delimits it,
/// and never ends on a backslash that would escape what follows.
pub proof fn lemma_escaped_stays_inside(csv: Seq<char>, quote: char)
    requires
        quote == '"' || quote == '\'',
    ensures
        stays_inside(escaped(csv), quote),
    decreases csv.len(),
{
    if csv.len() > 0 {
        let unit = escaped_char(csv.last());
        lemma_escaped_stays_inside(csv.drop_last(), quote);
        lemma_stays_inside_concat(escaped(csv.drop_last()), unit, quote);
        if is_special(csv.last()) {
            assert(unit.skip(2) == Seq::<char>::empty());
            assert(stays_inside(unit.skip(2), quote));
        } else {
            assert(unit.skip(1) == Seq::<char>::empty());
            assert(stays_inside(unit.skip(1), quote));
        }
        assert(stays_inside(unit, quote));
    }
}

/// Law: escaped input data placed inside a quoted literal cannot end that
/// literal. Where `before` leaves the reader inside the literal, the text
/// with the data in it closes the literal exactly where the text without the
/// data does.
pub proof fn lemma_data_cannot_leave_literal(
    before: Seq<char>,
    csv: Seq<char>,
    after: Seq<char>,
    quote: char,
)
    requires
        quote == '"' || quote == '\'',
        stays_inside(before, quote),
    ensures
        stays_inside(before + escaped(csv), quote),
        stays_inside(before + escaped(csv) + after, quote) == stays_inside(before + after, quote),
{
    lemma_escaped_stays_inside(csv, quote);
    lemma_stays_inside_concat(before, escaped(csv), quote);
    lemma_stays_inside_concat(before + escaped(csv), after, quote);
    lemma_stays_inside_concat(before, after, quote);
}

/// Law: a reader of the literal gets the input data back, character for
/// character.
pub proof fn lemma_unescaped_escaped(csv: Seq<char>)
    ensures
        unescaped(escaped(csv)) == csv,
    decreases csv.len(),
{
    if csv.len() == 0 {
    } else {
        let c = csv[0];
        let rest = escaped(csv.skip(1));
        lemma_escaped_first(csv);
        lemma_unescaped_escaped(csv.skip(1));
        let body = escaped_char(c) + rest;
        if is_special(c) {
            assert(body.skip(2) == rest);
            assert(body[1] == c);
        } else {
            assert(body.skip(1) == rest);
        }
        assert(seq![c] + csv.skip(1) == csv);
    }
}

/// Replacing goes piece by piece where the pattern is a single character:
/// what two texts put together become is what each becomes, put together.
pub proof fn lemma_replaced_char_concat(a: Seq<char>, b: Seq<char>, c: char, with: Seq<char>)
    ensures
        replaced(a + b, seq![c], with) == replaced(a, seq![c], with) + replaced(b, seq![c], with),
    decreases a.len(),
{
    let pat = seq![c];
    if a.len() == 0 {
        assert(a + b == b);
        assert(replaced(a, pat, with) + replaced(b, pat, with) == replaced(b, pat, with));
    } else {
        let whole = a + b;
        assert(whole.skip(1) == a.skip(1) + b);
        assert(whole.take(1) == a.take(1));
        lemma_replaced_char_concat(a.skip(1), b, c, with);
        if a.take(1) == pat {
            assert(with + (replaced(a.skip(1), pat, with) + replaced(b, pat, with)) == (with
                + replaced(a.skip(1), pat, with)) + replaced(b, pat, with));
        } else {
            assert(a.take(1) + (replaced(a.skip(1), pat, with) + replaced(b, pat, with)) == (
            a.take(1) + replaced(a.skip(1), pat, with)) + replaced(b, pat, with));
        }
    }
}

/// The three replacements that make up the escaping, made one after the
/// other: backslashes first, so that those which the quotes get are left
/// alone.
pub open spec fn replaced_in_turn(s: Seq<char>) -> Seq<char> {
    replaced(
        replaced(replaced(s, seq!['\\'], seq!['\\', '\\']), seq!['"'], seq!['\\', '"']),
        seq!['\''],
        seq!['\\', '\''],
    )
}

/// Law: escaping is the replacement of every backslash by two, then of every
/// double quote by a backslash and the quote, then of every single quote
/// likewise.
pub proof fn lemma_escaped_is_replaced_in_turn(s: Seq<char>)
    ensures
        escaped(s) == replaced_in_turn(s),
    decreases s.len(),
{
    let slash = seq!['\\'];
    let double = seq!['"'];
    let single = seq!['\''];
    let two = seq!['\\', '\\'];
    let slash_double = seq!['\\', '"'];
    let slash_single = seq!['\\', '\''];
    if s.len() == 0 {
    } else {
        let c = s.last();
        let unit = seq![c];
        let before = s.drop_last();
        assert(before + unit == s);
        lemma_escaped_is_replaced_in_turn(before);
        let first = replaced(unit, slash, two);
        lemma_replaced_char_concat(before, unit, '\\', two);
        let second = replaced(first, double, slash_double);
        lemma_replaced_char_concat(replaced(before, slash, two), first, '"', slash_double);
        let third = replaced(second, single, slash_single);
        lemma_replaced_char_concat(
            replaced(replaced(before, slash, two), double, slash_double),
            second,
            '\'',
            slash_single,
        );
        assert(replaced_in_turn(s) == replaced_in_turn(before) + third);
        assert(third == escaped_char(c)) by {
            reveal_with_fuel(replaced, 3);
            assert(unit.take(1) == unit);
            assert(unit.skip(1) == Seq::<char>::empty());
            if c == '\\' {
                assert(first == two);
                assert(two.take(1) == slash);
                assert(two.skip(1) == slash);
                assert(slash.take(1) == slash);
                assert(slash.skip(1) == Seq::<char>::empty());
                assert(second == two);
                assert(third == two);
            } else if c == '"' {
                assert(first == unit);
                assert(second == slash_double);
                assert(slash_double.take(1) == slash);
                assert(slash_double.skip(1) == double);
                assert(double.take(1) == double);
                assert(double.skip(1) == Seq::<char>::empty());
                assert(slash[0] != single[0]);
                assert(double[0] != single[0]);
                assert(replaced(double, single, slash_single) == double);
                assert(third == slash + double);
                assert(third == slash_double);
            } else if c == '\'' {
                assert(first == unit);
                assert(second == unit);
                assert(third == slash_single);
            } else {
                assert(first == unit);
                assert(second == unit);
                assert(third == unit);
            }
        }
    }
}

} // verus!
