//! The plain-text snapshot format: decimal numbers, lines, and what a line
//! means.

use vstd::prelude::*;

verus! {

/// Whether `c` is one of the ten decimal digits.
pub open spec fn is_digit(c: char) -> bool {
    '0' <= c && c <= '9'
}

/// The value of a decimal digit, and zero for any other character.
pub open spec fn digit_value(c: char) -> nat {
    if is_digit(c) {
        (c as int - '0' as int) as nat
    } else {
        0
    }
}

/// The character that stands for the digit `d`.
pub open spec fn digit_char(d: nat) -> char
    recommends
        d < 10,
{
    (d + '0' as nat) as char
}

/// Whether every character of `s` is a decimal digit.
pub open spec fn all_digits(s: Seq<char>) -> bool {
    forall|i: int| 0 <= i < s.len() ==> is_digit(#[trigger] s[i])
}

/// The number that a run of decimal digits stands for, most significant digit
/// first.
pub open spec fn digits_value(s: Seq<char>) -> nat
    decreases s.len(),
{
    if s.len() == 0 {
        0
    } else {
        digits_value(s.drop_last()) * 10 + digit_value(s.last())
    }
}

/// The decimal digits of `n`, without leading zeros.
pub open spec fn decimal(n: nat) -> Seq<char>
    decreases n,
{
    if n < 10 {
        seq![digit_char(n)]
    } else {
        decimal(n / 10).push(digit_char(n % 10))
    }
}

/// The number that a token stands for: an optional plus sign, then one or
/// more decimal digits, with a value that a machine word can hold. Any other
/// token stands for no number.
pub open spec fn parse_number(token: Seq<char>) -> Option<usize> {
    let digits = if token.len() > 0 && token[0] == '+' {
        token.skip(1)
    } else {
        token
    };
    if digits.len() > 0 && all_digits(digits) && digits_value(digits) <= usize::MAX {
        Some(digits_value(digits) as usize)
    } else {
        None
    }
}

/// The position of the first `c` in `s`, or the length of `s` where it holds
/// none.
pub open spec fn first_index_of(s: Seq<char>, c: char) -> nat
    decreases s.len(),
{
    if s.len() == 0 || s[0] == c {
        0
    } else {
        1 + first_index_of(s.skip(1), c)
    }
}

/// What one line of a snapshot says.
#[derive(Clone, Copy, Debug, PartialEq, Eq, Structural)]
pub enum Line {
    /// An empty line or a comment: it says nothing.
    Skipped,
    /// The cell in column `x` of row `y` is live.
    Cell { x: usize, y: usize },
    /// Anything else. Such a line is reported and otherwise ignored.
    Malformed,
}

/// Whether a line is a comment: it begins with two slashes.
pub open spec fn is_comment(line: Seq<char>) -> bool {
    line.len() >= 2 && line[0] == '/' && line[1] == '/'
}

/// The meaning of one line. A line that is neither empty nor a comment is cut
/// at its first space, and both parts have to be numbers: the column, then the
/// row.
pub open spec fn classify(line: Seq<char>) -> Line {
    if line.len() == 0 || is_comment(line) {
        Line::Skipped
    } else {
        let cut = first_index_of(line, ' ');
        if cut >= line.len() {
            Line::Malformed
        } else {
            match (parse_number(line.take(cut as int)), parse_number(line.skip(cut as int + 1))) {
                (Some(x), Some(y)) => Line::Cell { x, y },
                _ => Line::Malformed,
            }
        }
    }
}

/// A line without the carriage return that may end it.
pub open spec fn trim_carriage_return(line: Seq<char>) -> Seq<char> {
    if line.len() > 0 && line.last() == '\r' {
        line.drop_last()
    } else {
        line
    }
}

/// The lines of a text. A line ends at a line feed; the carriage return
/// before that line feed, if there is one, is not part of the line. What
/// follows the last line feed is a line of its own unless it is empty.
pub open spec fn lines_of(text: Seq<char>) -> Seq<Seq<char>>
    decreases text.len(),
{
    if text.len() == 0 {
        Seq::empty()
    } else {
        let end = first_index_of(text, '\n');
        if end >= text.len() {
            seq![text]
        } else {
            seq![trim_carriage_return(text.take(end as int))] + lines_of(text.skip(end as int + 1))
        }
    }
}

/// The record of a live cell in column `x` of row `y`: the column, a space,
/// and the row.
pub open spec fn record(x: nat, y: nat) -> Seq<char> {
    decimal(x) + seq![' '] + decimal(y)
}

/// The line that records a live cell in column `x` of row `y`, with the line
/// feed that ends it.
pub open spec fn cell_line(x: nat, y: nat) -> Seq<char> {
    record(x, y) + seq!['\n']
}

/// `String::push` appends the one character to the end of the string and
/// leaves the rest of it as it was.
pub assume_specification[ String::push ](s: &mut String, ch: char)
    ensures
        final(s)@ == old(s)@.push(ch),
;

/// Appends the decimal digits of `n` to `out`.
pub fn push_decimal(out: &mut String, n: u64)
    ensures
        final(out)@ == old(out)@ + decimal(n as nat),
    decreases n,
{
    if n >= 10 {
        push_decimal(out, n / 10);
    }
    let digit: u8 = (n % 10) as u8;
    let ch: char = (48u8 + digit) as char;
    out.push(ch);
}

/// Finds the first `c` in `chars[from..to]`: the position of that character,
/// or `to` where the range holds none.
pub fn find_char(chars: &Vec<char>, from: usize, to: usize, c: char) -> (at: usize)
    requires
        from <= to <= chars@.len(),
    ensures
        at == from + first_index_of(chars@.subrange(from as int, to as int), c),
        from <= at <= to,
{
    let ghost range = chars@.subrange(from as int, to as int);
    let mut at: usize = from;
    while at < to && chars[at] != c
        invariant
            from <= at <= to <= chars@.len(),
            range == chars@.subrange(from as int, to as int),
            forall|j: int| from <= j < at ==> chars@[j] != c,
        decreases to - at,
    {
        at = at + 1;
    }
    proof {
        lemma_first_index_of(range, c, at - from);
    }
    at
}

/// Reads the number that `chars[from..to]` stands for.
pub fn read_number(chars: &Vec<char>, from: usize, to: usize) -> (value: Option<usize>)
    requires
        from <= to <= chars@.len(),
    ensures
        value == parse_number(chars@.subrange(from as int, to as int)),
{
    let ghost token = chars@.subrange(from as int, to as int);
    let start: usize = if from < to && chars[from] == '+' {
        from + 1
    } else {
        from
    };
    let ghost digits = chars@.subrange(start as int, to as int);
    if start == to {
        return None;
    }
    let mut value: usize = 0;
    let mut at: usize = start;
    while at < to
        invariant
            from <= start <= at <= to <= chars@.len(),
            token == chars@.subrange(from as int, to as int),
            digits == chars@.subrange(start as int, to as int),
            digits == if token.len() > 0 && token[0] == '+' {
                token.skip(1)
            } else {
                token
            },
            all_digits(digits.take(at - start)),
            value == digits_value(digits.take(at - start)),
        decreases to - at,
    {
        let c: char = chars[at];
        let ghost prefix = digits.take(at - start + 1);
        assert(prefix.drop_last() =~= digits.take(at - start));
        assert(digits[at - start] == c);
        if !('0' <= c && c <= '9') {
            return None;
        }
        let digit: usize = (c as u32 - '0' as u32) as usize;
        proof {
            lemma_digits_value_prefix(digits, at - start + 1);
        }
        let scaled: usize = match value.checked_mul(10) {
            Some(scaled) => scaled,
            None => { return None; },
        };
        value = match scaled.checked_add(digit) {
            Some(sum) => sum,
            None => { return None; },
        };
        at = at + 1;
    }
    assert(digits.take(at - start) =~= digits);
    Some(value)
}

/// Reads the meaning of the line `chars[from..to]`.
pub fn read_line(chars: &Vec<char>, from: usize, to: usize) -> (line: Line)
    requires
        from <= to <= chars@.len(),
    ensures
        line == classify(chars@.subrange(from as int, to as int)),
{
    let ghost text = chars@.subrange(from as int, to as int);
    if from == to {
        return Line::Skipped;
    }
    if to - from >= 2 && chars[from] == '/' && chars[from + 1] == '/' {
        return Line::Skipped;
    }
    let cut: usize = find_char(chars, from, to, ' ');
    if cut == to {
        return Line::Malformed;
    }
    assert(text.take(cut - from) =~= chars@.subrange(from as int, cut as int));
    assert(text.skip(cut - from + 1) =~= chars@.subrange(cut + 1, to as int));
    let x: Option<usize> = read_number(chars, from, cut);
    let y: Option<usize> = read_number(chars, cut + 1, to);
    match (x, y) {
        (Some(x), Some(y)) => Line::Cell { x, y },
        _ => Line::Malformed,
    }
}

/// Finds the line that begins at `from`: where it ends, and where the next
/// line begins.
pub fn next_line(chars: &Vec<char>, from: usize) -> (bounds: (usize, usize))
    requires
        from < chars@.len(),
    ensures
        from <= bounds.0 <= bounds.1 <= chars@.len(),
        from < bounds.1,
        lines_of(chars@.skip(from as int)) == seq![
            chars@.subrange(from as int, bounds.0 as int),
        ] + lines_of(chars@.skip(bounds.1 as int)),
{
    let ghost rest = chars@.skip(from as int);
    let len: usize = chars.len();
    let feed: usize = find_char(chars, from, len, '\n');
    if feed == len {
        (len, len)
    } else {
        assert(rest.take(feed - from) =~= chars@.subrange(from as int, feed as int));
        assert(rest.skip(feed - from + 1) =~= chars@.skip(feed + 1));
        if feed > from && chars[feed - 1] == '\r' {
            assert(chars@.subrange(from as int, feed as int).drop_last() =~= chars@.subrange(
                from as int,
                feed - 1,
            ));
            (feed - 1, feed + 1)
        } else {
            (feed, feed + 1)
        }
    }
}

/// The characters of a text, one by one.
pub fn chars_of(text: &str) -> (chars: Vec<char>)
    ensures
        chars@ == text@,
{
    let mut chars: Vec<char> = Vec::new();
    for c in it: text.chars()
        invariant
            it.seq() == text@,
            chars@ == it.seq().take(it.index() as int),
    {
        chars.push(c);
    }
    chars
}

/// The characters `chars[from..to]` as a string.
pub fn string_of(chars: &Vec<char>, from: usize, to: usize) -> (out: String)
    requires
        from <= to <= chars@.len(),
    ensures
        out@ == chars@.subrange(from as int, to as int),
{
    let mut out: String = String::new();
    let mut at: usize = from;
    while at < to
        invariant
            from <= at <= to <= chars@.len(),
            out@ == chars@.subrange(from as int, at as int),
        decreases to - at,
    {
        out.push(chars[at]);
        at = at + 1;
    }
    out
}

/// The digits before a position stand for no more than all the digits do.
pub proof fn lemma_digits_value_prefix(s: Seq<char>, k: int)
    requires
        0 <= k <= s.len(),
    ensures
        digits_value(s.take(k)) <= digits_value(s),
    decreases s.len() - k,
{
    if k == s.len() {
        assert(s.take(k) =~= s);
    } else {
        lemma_digits_value_prefix(s, k + 1);
        assert(s.take(k + 1).drop_last() =~= s.take(k));
    }
}

/// The first `c` of a sequence is where a `c` stands, or the end, with no `c`
/// before.
pub proof fn lemma_first_index_of(s: Seq<char>, c: char, k: int)
    requires
        0 <= k <= s.len(),
        forall|j: int| 0 <= j < k ==> s[j] != c,
        k == s.len() || s[k] == c,
    ensures
        first_index_of(s, c) == k,
    decreases s.len(),
{
    if k > 0 {
        let rest = s.skip(1);
        lemma_first_index_of(rest, c, k - 1);
    }
}

/// The first `c` of a sequence lies within it or at its end, no `c` stands
/// before it, and where it lies within, a `c` stands there.
pub proof fn lemma_first_index_of_is_first(s: Seq<char>, c: char)
    ensures
        first_index_of(s, c) <= s.len(),
        forall|j: int| 0 <= j < first_index_of(s, c) ==> s[j] != c,
        first_index_of(s, c) < s.len() ==> s[first_index_of(s, c) as int] == c,
    decreases s.len(),
{
    if s.len() != 0 && s[0] != c {
        let rest = s.skip(1);
        lemma_first_index_of_is_first(rest, c);
        assert forall|j: int| 0 <= j < first_index_of(s, c) implies s[j] != c by {
            if j > 0 {
                assert(s[j] == rest[j - 1]);
            }
        }
    }
}

/// The decimal digits of a number are digits, at least one, and stand for
/// that number.
pub proof fn lemma_decimal_digits(n: nat)
    ensures
        decimal(n).len() >= 1,
        all_digits(decimal(n)),
        digits_value(decimal(n)) == n,
    decreases n,
{
    if n < 10 {
        let s = decimal(n);
        assert(digits_value(s.drop_last()) == 0);
    } else {
        lemma_decimal_digits(n / 10);
        let head = decimal(n / 10);
        let s = head.push(digit_char(n % 10));
        assert(s.drop_last() =~= head);
    }
}

/// Reading what was written gives the number back.
pub proof fn lemma_parse_decimal(n: nat)
    requires
        n <= usize::MAX,
    ensures
        parse_number(decimal(n)) == Some(n as usize),
{
    lemma_decimal_digits(n);
}

/// The record of a cell is read as that cell.
pub proof fn lemma_classify_record(x: usize, y: usize)
    ensures
        classify(record(x as nat, y as nat)) == (Line::Cell { x, y }),
        record(x as nat, y as nat).len() > 0,
        forall|j: int|
            0 <= j < record(x as nat, y as nat).len() ==> record(x as nat, y as nat)[j] != '\n',
        record(x as nat, y as nat).last() != '\r',
{
    let dx = decimal(x as nat);
    let dy = decimal(y as nat);
    let line = record(x as nat, y as nat);
    lemma_decimal_digits(x as nat);
    lemma_decimal_digits(y as nat);
    lemma_parse_decimal(x as nat);
    lemma_parse_decimal(y as nat);
    lemma_first_index_of(line, ' ', dx.len() as int);
    assert(line.take(dx.len() as int) =~= dx);
    assert(line.skip(dx.len() as int + 1) =~= dy);
}

/// A text that is empty or ends in a line feed, followed by one more line
/// and its line feed, has the lines of the text and then that line. The line
/// must hold no line feed and must not end in a carriage return.
pub proof fn lemma_lines_of_push(text: Seq<char>, line: Seq<char>)
    requires
        text.len() == 0 || text.last() == '\n',
        forall|j: int| 0 <= j < line.len() ==> line[j] != '\n',
        line.len() == 0 || line.last() != '\r',
    ensures
        lines_of(text + line + seq!['\n']) == lines_of(text).push(line),
    decreases text.len(),
{
    let whole = text + line + seq!['\n'];
    if text.len() == 0 {
        lemma_first_index_of(whole, '\n', line.len() as int);
        assert(whole.take(line.len() as int) =~= line);
        assert(whole.skip(line.len() as int + 1) =~= Seq::<char>::empty());
        assert(lines_of(Seq::<char>::empty()) =~= Seq::<Seq<char>>::empty());
    } else {
        lemma_first_index_of_is_first(text, '\n');
        let end = first_index_of(text, '\n') as int;
        lemma_first_index_of(whole, '\n', end);
        let rest = text.skip(end + 1);
        assert(whole.take(end) =~= text.take(end));
        assert(whole.skip(end + 1) =~= rest + line + seq!['\n']);
        lemma_lines_of_push(rest, line);
    }
}

} // verus!
