//! Character-level text helpers: the pieces of `str`'s API that the audit
//! reads git's output with, each stated over `Seq<char>` and proved.
use vstd::prelude::*;

verus! {

// ---------------------------------------------------------------------------
// Whitespace and trimming
// ---------------------------------------------------------------------------

/// The Unicode White_Space property (PropList.txt), the set of characters
/// that `char::is_whitespace` accepts.
pub open spec fn is_white_space(c: char) -> bool {
    let u: u32 = c as u32;
    ||| 0x09 <= u <= 0x0D
    ||| u == 0x20
    ||| u == 0x85
    ||| u == 0xA0
    ||| u == 0x1680
    ||| 0x2000 <= u <= 0x200A
    ||| u == 0x2028
    ||| u == 0x2029
    ||| u == 0x202F
    ||| u == 0x205F
    ||| u == 0x3000
}

/// `char::is_whitespace`: true exactly on the characters with Unicode's
/// White_Space property.
pub assume_specification[ char::is_whitespace ](c: char) -> (r: bool)
    ensures
        r == is_white_space(c),
;

/// `s` without its leading whitespace.
pub open spec fn trim_front(s: Seq<char>) -> Seq<char>
    decreases s.len(),
{
    if s.len() > 0 && is_white_space(s[0]) {
        trim_front(s.drop_first())
    } else {
        s
    }
}

/// `s` without its trailing whitespace.
pub open spec fn trim_back(s: Seq<char>) -> Seq<char>
    decreases s.len(),
{
    if s.len() > 0 && is_white_space(s.last()) {
        trim_back(s.drop_last())
    } else {
        s
    }
}

/// `s` without leading and trailing whitespace (what `str::trim` returns).
pub open spec fn trimmed(s: Seq<char>) -> Seq<char> {
    trim_back(trim_front(s))
}

proof fn lemma_trim_front_skip(s: Seq<char>, i: int)
    requires
        0 <= i <= s.len(),
        forall|k: int| 0 <= k < i ==> is_white_space(#[trigger] s[k]),
    ensures
        trim_front(s) == trim_front(s.skip(i)),
    decreases i,
{
    if i > 0 {
        assert(s.drop_first().skip(i - 1) =~= s.skip(i));
        lemma_trim_front_skip(s.drop_first(), i - 1);
    } else {
        assert(s.skip(0) =~= s);
    }
}

proof fn lemma_trim_back_take(s: Seq<char>, j: int)
    requires
        0 <= j <= s.len(),
        forall|k: int| j <= k < s.len() ==> is_white_space(#[trigger] s[k]),
    ensures
        trim_back(s) == trim_back(s.take(j)),
    decreases s.len() - j,
{
    if j < s.len() {
        assert(s.drop_last().take(j) =~= s.take(j));
        lemma_trim_back_take(s.drop_last(), j);
    } else {
        assert(s.take(j) =~= s);
    }
}

/// Copies `v[from..to]` into a new vector.
pub fn slice_chars(v: &Vec<char>, from: usize, to: usize) -> (r: Vec<char>)
    requires
        from <= to <= v.len(),
    ensures
        r@ == v@.subrange(from as int, to as int),
{
    let mut r: Vec<char> = Vec::new();
    let mut i: usize = from;
    while i < to
        invariant
            from <= i <= to <= v.len(),
            r@ == v@.subrange(from as int, i as int),
        decreases to - i,
    {
        r.push(v[i]);
        i += 1;
        assert(r@ =~= v@.subrange(from as int, i as int));
    }
    r
}

/// `s` with leading and trailing whitespace removed (`str::trim`).
pub fn trim_chars(s: &Vec<char>) -> (r: Vec<char>)
    ensures
        r@ == trimmed(s@),
{
    let n: usize = s.len();
    let mut i: usize = 0;
    while i < n && s[i].is_whitespace()
        invariant
            i <= n == s.len(),
            forall|k: int| 0 <= k < i ==> is_white_space(#[trigger] s@[k]),
        decreases n - i,
    {
        i += 1;
    }
    proof {
        lemma_trim_front_skip(s@, i as int);
    }
    let mut j: usize = n;
    while j > i && s[j - 1].is_whitespace()
        invariant
            i <= j <= n == s.len(),
            forall|k: int| j <= k < n ==> is_white_space(#[trigger] s@[k]),
        decreases j,
    {
        j -= 1;
    }
    proof {
        let t = s@.skip(i as int);
        assert(trim_front(t) == t);
        assert forall|k: int| (j - i) <= k < t.len() implies is_white_space(#[trigger] t[k]) by {
            assert(t[k] == s@[k + i]);
        }
        lemma_trim_back_take(t, j - i);
        assert(t.take(j - i) =~= s@.subrange(i as int, j as int));
        let u = s@.subrange(i as int, j as int);
        if u.len() > 0 {
            assert(u.last() == s@[j - 1]);
        }
    }
    slice_chars(s, i, j)
}

// ---------------------------------------------------------------------------
// Prefixes
// ---------------------------------------------------------------------------

/// `p` is a prefix of `s`.
pub open spec fn has_prefix(s: Seq<char>, p: Seq<char>) -> bool {
    p.len() <= s.len() && s.take(p.len() as int) == p
}

/// `str::starts_with` on characters.
pub fn starts_with(s: &Vec<char>, p: &Vec<char>) -> (r: bool)
    ensures
        r == has_prefix(s@, p@),
{
    if p.len() > s.len() {
        return false;
    }
    let mut i: usize = 0;
    while i < p.len()
        invariant
            p.len() <= s.len(),
            i <= p.len(),
            forall|k: int| 0 <= k < i ==> s@[k] == p@[k],
        decreases p.len() - i,
    {
        if s[i] != p[i] {
            assert(s@.take(p.len() as int)[i as int] != p@[i as int]);
            return false;
        }
        i += 1;
    }
    assert(s@.take(p.len() as int) =~= p@);
    true
}

/// Equality of two character sequences.
pub fn chars_equal(a: &Vec<char>, b: &Vec<char>) -> (r: bool)
    ensures
        r == (a@ == b@),
{
    if a.len() != b.len() {
        return false;
    }
    let r = starts_with(a, b);
    proof {
        assert(a@.take(b.len() as int) =~= a@);
    }
    r
}

/// `s` without the prefix `p` when it has it (`str::strip_prefix`, with the
/// text kept when the prefix is absent).
pub open spec fn without_prefix(s: Seq<char>, p: Seq<char>) -> Seq<char> {
    if has_prefix(s, p) {
        s.skip(p.len() as int)
    } else {
        s
    }
}

/// `s` without one leading `p`, when it starts with it.
pub fn strip_prefix_once(s: &Vec<char>, p: &Vec<char>) -> (r: Vec<char>)
    ensures
        r@ == without_prefix(s@, p@),
{
    if starts_with(s, p) {
        let r = slice_chars(s, p.len(), s.len());
        assert(r@ =~= s@.skip(p.len() as int));
        r
    } else {
        let r = slice_chars(s, 0, s.len());
        assert(r@ =~= s@);
        r
    }
}

// ---------------------------------------------------------------------------
// Lines
// ---------------------------------------------------------------------------

/// Index of the first `'\n'` in `s`, or `s.len()` when there is none.
pub open spec fn line_end(s: Seq<char>) -> nat
    decreases s.len(),
{
    if s.len() == 0 {
        0
    } else if s[0] == '\n' {
        0
    } else {
        1 + line_end(s.drop_first())
    }
}

/// A line without the `'\r'` of a `"\r\n"` terminator.
pub open spec fn strip_cr(l: Seq<char>) -> Seq<char> {
    if l.len() > 0 && l.last() == '\r' {
        l.drop_last()
    } else {
        l
    }
}

/// The lines of `s`, as `str::lines` yields them: split at `'\n'`, a `'\r'`
/// right before a `'\n'` dropped, and no empty line after a final `'\n'`.
pub open spec fn lines_of(s: Seq<char>) -> Seq<Seq<char>>
    decreases s.len(),
{
    if s.len() == 0 {
        seq![]
    } else {
        let k: nat = line_end(s);
        if k >= s.len() {
            seq![s]
        } else {
            seq![strip_cr(s.take(k as int))] + lines_of(s.skip((k + 1) as int))
        }
    }
}

proof fn lemma_line_end_at(s: Seq<char>, k: int)
    requires
        0 <= k <= s.len(),
        k < s.len() ==> s[k] == '\n',
        forall|i: int| 0 <= i < k ==> s[i] != '\n',
    ensures
        line_end(s) == k,
    decreases k,
{
    if k > 0 {
        assert(s[0] != '\n');
        let t = s.drop_first();
        assert forall|i: int| 0 <= i < k - 1 implies t[i] != '\n' by {
            assert(t[i] == s[i + 1]);
        }
        lemma_line_end_at(t, k - 1);
    }
}

/// `text` split into lines (`str::lines`).
pub fn split_lines(text: &Vec<char>) -> (r: Vec<Vec<char>>)
    ensures
        r.deep_view() == lines_of(text@),
{
    let n: usize = text.len();
    let mut out: Vec<Vec<char>> = Vec::new();
    let mut start: usize = 0;
    let mut j: usize = 0;
    proof {
        assert(out.deep_view() =~= Seq::<Seq<char>>::empty());
        assert(text@.skip(0) =~= text@);
        assert(Seq::<Seq<char>>::empty() + lines_of(text@) =~= lines_of(text@));
    }
    while j < n
        invariant
            n == text.len(),
            start <= j <= n,
            forall|i: int| start <= i < j ==> text@[i] != '\n',
            out.deep_view() + lines_of(text@.skip(start as int)) == lines_of(text@),
        decreases n - j,
    {
        if text[j] == '\n' {
            let mut line = slice_chars(text, start, j);
            if line.len() > 0 && line[line.len() - 1] == '\r' {
                line.pop();
            }
            let ghost prev_view = out.deep_view();
            let ghost line_view = line@;
            proof {
                let t = text@.skip(start as int);
                assert forall|i: int| 0 <= i < j - start implies t[i] != '\n' by {
                    assert(t[i] == text@[i + start]);
                }
                lemma_line_end_at(t, j - start);
                assert(t.take(j - start) =~= text@.subrange(start as int, j as int));
                assert(t.skip(j - start + 1) =~= text@.skip(j + 1));
                assert(line@ == strip_cr(t.take(j - start)));
                let prev = out.deep_view();
                assert(lines_of(t) == seq![line@] + lines_of(text@.skip(j + 1)));
                assert(prev.push(line@) + lines_of(text@.skip(j + 1)) =~= prev + lines_of(t));
                assert(line.deep_view() =~= line@);
            }
            out.push(line);
            assert(out.deep_view() =~= prev_view.push(line_view));
            start = j + 1;
        }
        j += 1;
    }
    if start < n {
        let line = slice_chars(text, start, n);
        proof {
            let t = text@.skip(start as int);
            assert forall|i: int| 0 <= i < t.len() implies t[i] != '\n' by {
                assert(t[i] == text@[i + start]);
            }
            lemma_line_end_at(t, t.len() as int);
            assert(t =~= line@);
            let prev = out.deep_view();
            assert(prev.push(line@) =~= prev + lines_of(t));
            assert(line.deep_view() =~= line@);
        }
        let ghost prev_view = out.deep_view();
        let ghost line_view = line@;
        out.push(line);
        assert(out.deep_view() =~= prev_view.push(line_view));
    } else {
        proof {
            assert(text@.skip(start as int) =~= Seq::<char>::empty());
            assert(out.deep_view() + Seq::<Seq<char>>::empty() =~= out.deep_view());
        }
    }
    out
}

// ---------------------------------------------------------------------------
// Tokens and segments
// ---------------------------------------------------------------------------

/// Number of leading whitespace characters of `s`.
pub open spec fn leading_ws(s: Seq<char>) -> nat
    decreases s.len(),
{
    if s.len() > 0 && is_white_space(s[0]) {
        1 + leading_ws(s.drop_first())
    } else {
        0
    }
}

/// Number of leading non-whitespace characters of `s`.
pub open spec fn leading_word(s: Seq<char>) -> nat
    decreases s.len(),
{
    if s.len() > 0 && !is_white_space(s[0]) {
        1 + leading_word(s.drop_first())
    } else {
        0
    }
}

/// The first whitespace-separated word of `s`, if any
/// (`str::split_whitespace().next()`).
pub open spec fn first_word(s: Seq<char>) -> Option<Seq<char>> {
    let t = s.skip(leading_ws(s) as int);
    if t.len() == 0 {
        None
    } else {
        Some(t.take(leading_word(t) as int))
    }
}

proof fn lemma_leading_ws_at(s: Seq<char>, k: int)
    requires
        0 <= k <= s.len(),
        k < s.len() ==> !is_white_space(s[k]),
        forall|i: int| 0 <= i < k ==> is_white_space(#[trigger] s[i]),
    ensures
        leading_ws(s) == k,
    decreases k,
{
    if k > 0 {
        let t = s.drop_first();
        assert forall|i: int| 0 <= i < k - 1 implies is_white_space(#[trigger] t[i]) by {
            assert(t[i] == s[i + 1]);
        }
        lemma_leading_ws_at(t, k - 1);
    }
}

proof fn lemma_leading_word_at(s: Seq<char>, k: int)
    requires
        0 <= k <= s.len(),
        k < s.len() ==> is_white_space(s[k]),
        forall|i: int| 0 <= i < k ==> !is_white_space(#[trigger] s[i]),
    ensures
        leading_word(s) == k,
    decreases k,
{
    if k > 0 {
        let t = s.drop_first();
        assert forall|i: int| 0 <= i < k - 1 implies !is_white_space(#[trigger] t[i]) by {
            assert(t[i] == s[i + 1]);
        }
        lemma_leading_word_at(t, k - 1);
    }
}

/// The first whitespace-separated word of `s` (`split_whitespace().next()`).
pub fn first_word_of(s: &Vec<char>) -> (r: Option<Vec<char>>)
    ensures
        r.deep_view() == first_word(s@),
{
    let n: usize = s.len();
    let mut i: usize = 0;
    while i < n && s[i].is_whitespace()
        invariant
            i <= n == s.len(),
            forall|k: int| 0 <= k < i ==> is_white_space(#[trigger] s@[k]),
        decreases n - i,
    {
        i += 1;
    }
    proof {
        lemma_leading_ws_at(s@, i as int);
    }
    if i == n {
        return None;
    }
    let mut j: usize = i;
    while j < n && !s[j].is_whitespace()
        invariant
            i <= j <= n == s.len(),
            forall|k: int| i <= k < j ==> !is_white_space(#[trigger] s@[k]),
        decreases n - j,
    {
        j += 1;
    }
    let w = slice_chars(s, i, j);
    proof {
        let t = s@.skip(i as int);
        assert forall|k: int| 0 <= k < j - i implies !is_white_space(#[trigger] t[k]) by {
            assert(t[k] == s@[k + i]);
        }
        if j < n {
            assert(t[j - i] == s@[j as int]);
        }
        lemma_leading_word_at(t, j - i);
        assert(t.take(j - i) =~= w@);
    }
    Some(w)
}

// ---------------------------------------------------------------------------
// Numbers
// ---------------------------------------------------------------------------

/// An ASCII decimal digit.
pub open spec fn is_digit(c: char) -> bool {
    '0' <= c && c <= '9'
}

/// The value of the decimal digits `s` (all of them digits).
pub open spec fn digits_value(s: Seq<char>) -> int
    decreases s.len(),
{
    if s.len() == 0 {
        0
    } else {
        digits_value(s.drop_last()) * 10 + ((s.last() as u32) - ('0' as u32))
    }
}

/// What `str::parse` reads as an integer, before its range check: an
/// optional `'+'` (or `'-'`, when `signed`) followed by one or more ASCII
/// digits, and nothing else.
pub open spec fn integer_text_value(s: Seq<char>, signed: bool) -> Option<int> {
    let neg = signed && s.len() > 0 && s[0] == '-';
    let body = if s.len() > 0 && (s[0] == '+' || neg) {
        s.drop_first()
    } else {
        s
    };
    if body.len() > 0 && (forall|i: int| 0 <= i < body.len() ==> is_digit(#[trigger] body[i])) {
        Some(
            if neg {
                -digits_value(body)
            } else {
                digits_value(body)
            },
        )
    } else {
        None
    }
}

/// `s.parse::<i64>()`, as an `Option`.
pub open spec fn parsed_i64(s: Seq<char>) -> Option<i64> {
    match integer_text_value(s, true) {
        Some(v) => if i64::MIN <= v <= i64::MAX {
            Some(v as i64)
        } else {
            None
        },
        None => None,
    }
}

/// `s.parse::<u64>()`, as an `Option`.
pub open spec fn parsed_u64(s: Seq<char>) -> Option<u64> {
    match integer_text_value(s, false) {
        Some(v) => if 0 <= v <= u64::MAX {
            Some(v as u64)
        } else {
            None
        },
        None => None,
    }
}

/// Calls `<i64 as FromStr>::from_str` (`str::parse::<i64>`). Its documentation:
/// an optional `+` or `-` sign followed by only ASCII digits, else an error;
/// a value out of `i64`'s range is an error too. The contract claims exactly that.
#[verifier::external_body]
pub(crate) fn parse_i64(s: &str) -> (r: Option<i64>)
    ensures
        r == parsed_i64(s@),
{
    s.parse::<i64>().ok()
}

/// Calls `<u64 as FromStr>::from_str` (`str::parse::<u64>`). As for `i64`,
/// except that an unsigned type takes no `-` sign. The contract claims exactly that.
#[verifier::external_body]
pub(crate) fn parse_u64(s: &str) -> (r: Option<u64>)
    ensures
        r == parsed_u64(s@),
{
    s.parse::<u64>().ok()
}

/// The ASCII digit for `d < 10`.
pub open spec fn digit_char(d: nat) -> char {
    (('0' as u32) + d) as char
}

/// Decimal digits of `n`, most significant first, no leading zeros.
pub open spec fn digits_of(n: nat) -> Seq<char>
    decreases n,
{
    if n < 10 {
        seq![digit_char(n)]
    } else {
        digits_of(n / 10).push(digit_char(n % 10))
    }
}

/// The decimal text of `n`, with a leading `'-'` when negative.
pub open spec fn decimal(n: int) -> Seq<char> {
    if n < 0 {
        seq!['-'] + digits_of((-n) as nat)
    } else {
        digits_of(n as nat)
    }
}

/// Calls `<i64 as ToString>::to_string` (through `Display`), which writes the
/// number in decimal, with a leading `-` for negative numbers and no padding.
#[verifier::external_body]
pub(crate) fn i64_text(x: i64) -> (r: String)
    ensures
        r@ == decimal(x as int),
{
    x.to_string()
}

// ---------------------------------------------------------------------------
// Conversions
// ---------------------------------------------------------------------------

/// Calls `str::chars` and collects them: the characters of `s`, in order.
#[verifier::external_body]
pub(crate) fn chars_of(s: &str) -> (r: Vec<char>)
    ensures
        r@ == s@,
{
    s.chars().collect()
}

/// Collects characters into a `String` (`FromIterator<&char> for String`):
/// the string of exactly those characters, in order.
#[verifier::external_body]
pub(crate) fn string_of(cs: &Vec<char>) -> (r: String)
    ensures
        r@ == cs@,
{
    cs.iter().collect()
}

/// What `String::from_utf8_lossy` decodes from `bytes`: the characters of a
/// valid UTF-8 text, with U+FFFD standing for each invalid sequence.
pub uninterp spec fn utf8_lossy(bytes: Seq<u8>) -> Seq<char>;

/// Calls `String::from_utf8_lossy`. Its result is named `utf8_lossy`; of valid
/// UTF-8 input its documentation says that the text is decoded unchanged.
#[verifier::external_body]
pub(crate) fn lossy_text(bytes: &[u8]) -> (r: String)
    ensures
        r@ == utf8_lossy(bytes@),
        vstd::utf8::valid_utf8(bytes@) ==> r@ == vstd::utf8::decode_utf8(bytes@),
{
    String::from_utf8_lossy(bytes).into_owned()
}

/// Appends `s` to `v`.
pub fn push_all(v: &mut Vec<char>, s: &Vec<char>)
    ensures
        final(v)@ == old(v)@ + s@,
{
    let mut i: usize = 0;
    while i < s.len()
        invariant
            i <= s.len(),
            v@ == old(v)@ + s@.take(i as int),
        decreases s.len() - i,
    {
        v.push(s[i]);
        i += 1;
        assert(v@ =~= old(v)@ + s@.take(i as int));
    }
    assert(s@.take(s.len() as int) =~= s@);
}

} // verus!

verus! {

/// The concatenation of two texts.
pub fn concat_text(a: &str, b: &str) -> (r: String)
    ensures
        r@ == a@ + b@,
{
    let mut v = chars_of(a);
    let w = chars_of(b);
    push_all(&mut v, &w);
    string_of(&v)
}

/// An owned copy of a text.
pub fn owned_text(s: &str) -> (r: String)
    ensures
        r@ == s@,
{
    string_of(&chars_of(s))
}

/// The characters of a string.
pub fn string_chars(s: &String) -> (r: Vec<char>)
    ensures
        r@ == s@,
{
    chars_of(s.as_str())
}

/// Whether `v` holds a string equal to `s`.
pub fn contains_string(v: &Vec<String>, s: &String) -> (r: bool)
    ensures
        r == v.deep_view().contains(s@),
{
    let mut i: usize = 0;
    while i < v.len()
        invariant
            i <= v.len(),
            forall|k: int| 0 <= k < i ==> v@[k]@ != s@,
        decreases v.len() - i,
    {
        if v[i] == *s {
            assert(v.deep_view()[i as int] == s@);
            return true;
        }
        i += 1;
    }
    assert forall|k: int| 0 <= k < v.deep_view().len() implies v.deep_view()[k] != s@ by {
        assert(v.deep_view()[k] == v@[k]@);
    }
    false
}

// ---------------------------------------------------------------------------
// Shell quoting
// ---------------------------------------------------------------------------

/// A character that a POSIX shell reads literally outside quotes.
pub open spec fn is_shell_safe(c: char) -> bool {
    ||| 'a' <= c <= 'z'
    ||| 'A' <= c <= 'Z'
    ||| '0' <= c <= '9'
    ||| c == '_' || c == '@' || c == '%' || c == '+' || c == '='
    ||| c == ':' || c == ',' || c == '.' || c == '/' || c == '-'
}

/// The inside of a single-quoted word: each `'` written as `'\''`.
pub open spec fn quote_body(s: Seq<char>) -> Seq<char>
    decreases s.len(),
{
    if s.len() == 0 {
        seq![]
    } else {
        (if s[0] == '\'' {
            seq!['\'', '\\', '\'', '\'']
        } else {
            seq![s[0]]
        }) + quote_body(s.drop_first())
    }
}

/// `s` as one POSIX shell word: unchanged when it is non-empty and all of its
/// characters are safe, else single-quoted.
pub open spec fn shell_quoted(s: Seq<char>) -> Seq<char> {
    if s.len() > 0 && (forall|i: int| 0 <= i < s.len() ==> is_shell_safe(#[trigger] s[i])) {
        s
    } else {
        seq!['\''] + quote_body(s) + seq!['\'']
    }
}

/// What a POSIX shell makes of a word built from literal characters,
/// single-quoted runs and backslash escapes (`in_single`: inside quotes).
pub open spec fn shell_word_value(q: Seq<char>, in_single: bool) -> Seq<char>
    decreases q.len(),
{
    if q.len() == 0 {
        seq![]
    } else if in_single {
        if q[0] == '\'' {
            shell_word_value(q.drop_first(), false)
        } else {
            seq![q[0]] + shell_word_value(q.drop_first(), true)
        }
    } else if q[0] == '\'' {
        shell_word_value(q.drop_first(), true)
    } else if q[0] == '\\' && q.len() >= 2 {
        seq![q[1]] + shell_word_value(q.skip(2), false)
    } else {
        seq![q[0]] + shell_word_value(q.drop_first(), false)
    }
}

/// The word stays one word: no whitespace or shell operator outside quotes,
/// and every quote is closed.
pub open spec fn is_single_word(q: Seq<char>, in_single: bool) -> bool
    decreases q.len(),
{
    if q.len() == 0 {
        !in_single
    } else if in_single {
        if q[0] == '\'' {
            is_single_word(q.drop_first(), false)
        } else {
            is_single_word(q.drop_first(), true)
        }
    } else if q[0] == '\'' {
        is_single_word(q.drop_first(), true)
    } else if q[0] == '\\' && q.len() >= 2 {
        is_single_word(q.skip(2), false)
    } else {
        is_shell_safe(q[0]) && is_single_word(q.drop_first(), false)
    }
}

proof fn lemma_safe_word(s: Seq<char>)
    requires
        forall|i: int| 0 <= i < s.len() ==> is_shell_safe(#[trigger] s[i]),
    ensures
        shell_word_value(s, false) == s,
        is_single_word(s, false),
    decreases s.len(),
{
    if s.len() > 0 {
        assert(is_shell_safe(s[0]));
        let t = s.drop_first();
        assert forall|i: int| 0 <= i < t.len() implies is_shell_safe(#[trigger] t[i]) by {
            assert(t[i] == s[i + 1]);
        }
        lemma_safe_word(t);
        assert(seq![s[0]] + t =~= s);
    }
}

proof fn lemma_quoted_body(s: Seq<char>)
    ensures
        shell_word_value(quote_body(s) + seq!['\''], true) == s,
        is_single_word(quote_body(s) + seq!['\''], true),
    decreases s.len(),
{
    let tail = seq!['\''];
    if s.len() == 0 {
        assert(quote_body(s) + tail =~= tail);
        assert(tail.drop_first() =~= Seq::<char>::empty());
        assert(shell_word_value(tail, true) == shell_word_value(tail.drop_first(), false));
        assert(is_single_word(tail, true) == is_single_word(tail.drop_first(), false));
    } else {
        let rest = quote_body(s.drop_first()) + tail;
        lemma_quoted_body(s.drop_first());
        assert(shell_word_value(rest, true) == s.drop_first());
        assert(is_single_word(rest, true));
        if s[0] == '\'' {
            let q = seq!['\'', '\\', '\'', '\''] + rest;
            assert(quote_body(s) + tail =~= q);
            let q1 = q.drop_first();
            assert(q1 =~= seq!['\\', '\'', '\''] + rest);
            let q2 = q1.skip(2);
            assert(q2 =~= seq!['\''] + rest);
            assert(q2.drop_first() =~= rest);
            assert(shell_word_value(q2, false) == shell_word_value(rest, true));
            assert(is_single_word(q2, false) == is_single_word(rest, true));
            assert(q1[0] == '\\' && q1[1] == '\'' && q1.len() >= 2);
            assert(shell_word_value(q1, false) == seq!['\''] + shell_word_value(q2, false));
            assert(is_single_word(q1, false) == is_single_word(q2, false));
            assert(q[0] == '\'');
            assert(shell_word_value(q, true) == shell_word_value(q1, false));
            assert(is_single_word(q, true) == is_single_word(q1, false));
            assert(seq!['\''] + s.drop_first() =~= s);
        } else {
            let q = seq![s[0]] + rest;
            assert(quote_body(s) + tail =~= q);
            assert(q.drop_first() =~= rest);
            assert(q[0] == s[0]);
            assert(shell_word_value(q, true) == seq![s[0]] + shell_word_value(rest, true));
            assert(is_single_word(q, true) == is_single_word(rest, true));
            assert(seq![s[0]] + s.drop_first() =~= s);
        }
    }
}

/// Law: a shell-quoted text is read back by the shell as exactly one word,
/// the text itself.
pub proof fn lemma_shell_quoted_round_trip(s: Seq<char>)
    ensures
        shell_word_value(shell_quoted(s), false) == s,
        is_single_word(shell_quoted(s), false),
{
    if s.len() > 0 && (forall|i: int| 0 <= i < s.len() ==> is_shell_safe(#[trigger] s[i])) {
        lemma_safe_word(s);
    } else {
        lemma_quoted_body(s);
        let q = seq!['\''] + quote_body(s) + seq!['\''];
        assert(q.drop_first() =~= quote_body(s) + seq!['\'']);
    }
}

fn is_shell_safe_char(c: char) -> (r: bool)
    ensures
        r == is_shell_safe(c),
{
    ('a' <= c && c <= 'z') || ('A' <= c && c <= 'Z') || ('0' <= c && c <= '9') || c == '_' || c
        == '@' || c == '%' || c == '+' || c == '=' || c == ':' || c == ',' || c == '.' || c == '/'
        || c == '-'
}

/// `s` quoted as one POSIX shell word (see [`shell_quoted`]).
pub fn shell_quote(s: &str) -> (r: String)
    ensures
        r@ == shell_quoted(s@),
{
    let cs = chars_of(s);
    let n: usize = cs.len();
    let mut all_safe = n > 0;
    let mut i: usize = 0;
    while i < n
        invariant
            n == cs.len(),
            i <= n,
            all_safe == (n > 0 && forall|k: int| 0 <= k < i ==> is_shell_safe(#[trigger] cs@[k])),
        decreases n - i,
    {
        if !is_shell_safe_char(cs[i]) {
            all_safe = false;
        }
        i += 1;
    }
    if all_safe {
        return string_of(&cs);
    }
    let mut out: Vec<char> = Vec::new();
    out.push('\'');
    let mut j: usize = 0;
    proof {
        assert(cs@.skip(0) =~= cs@);
    }
    while j < n
        invariant
            n == cs.len(),
            j <= n,
            out@ + quote_body(cs@.skip(j as int)) == seq!['\''] + quote_body(cs@),
        decreases n - j,
    {
        let ghost before = out@;
        let c = cs[j];
        assert(cs@.skip(j as int).drop_first() =~= cs@.skip(j + 1));
        assert(cs@.skip(j as int)[0] == c);
        if c == '\'' {
            out.push('\'');
            out.push('\\');
            out.push('\'');
            out.push('\'');
            assert(out@ =~= before + seq!['\'', '\\', '\'', '\'']);
        } else {
            out.push(c);
            assert(out@ =~= before + seq![c]);
        }
        j += 1;
        assert(out@ + quote_body(cs@.skip(j as int)) =~= before + quote_body(cs@.skip(j - 1)));
    }
    assert(cs@.skip(n as int) =~= Seq::<char>::empty());
    assert(out@ + quote_body(cs@.skip(n as int)) =~= out@);
    out.push('\'');
    string_of(&out)
}

} // verus!
