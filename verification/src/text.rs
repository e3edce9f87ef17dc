use vstd::prelude::*;

verus! {

/// Whether `c` has the Unicode property White_Space: the controls from
/// tab to carriage return, the space, next line, the no-break space, the
/// ogham space mark, the spaces from en quad to hair space, the line and the
/// paragraph separator, the narrow no-break space, the medium mathematical
/// space and the ideographic space.
pub open spec fn is_white_space(c: char) -> bool {
    ||| '\u{9}' <= c <= '\u{d}'
    ||| c == ' '
    ||| c == '\u{85}'
    ||| c == '\u{a0}'
    ||| c == '\u{1680}'
    ||| '\u{2000}' <= c <= '\u{200a}'
    ||| c == '\u{2028}'
    ||| c == '\u{2029}'
    ||| c == '\u{202f}'
    ||| c == '\u{205f}'
    ||| c == '\u{3000}'
}

/// std documents `char::is_whitespace` as true of the characters that have
/// the property White_Space, and of no others.
pub assume_specification[ char::is_whitespace ](c: char) -> (r: bool)
    ensures
        r == is_white_space(c),
;

/// Whether `c` is white space, found by comparing `c` with the characters
/// that are.
pub fn has_white_space_property(c: char) -> (r: bool)
    ensures
        r == is_white_space(c),
{
    ('\u{9}' <= c && c <= '\u{d}') || c == ' ' || c == '\u{85}' || c == '\u{a0}' || c
        == '\u{1680}' || ('\u{2000}' <= c && c <= '\u{200a}') || c == '\u{2028}' || c
        == '\u{2029}' || c == '\u{202f}' || c == '\u{205f}' || c == '\u{3000}'
}

/// std documents `String::push` as appending the character to the end.
pub assume_specification[ String::push ](s: &mut String, c: char)
    ensures
        final(s)@ == old(s)@.push(c),
;

/// `c` with the upper-case letters of ASCII turned into lower case.
pub open spec fn ascii_lower(c: char) -> char {
    if 'A' <= c <= 'Z' {
        ((c as u8) + 32) as char
    } else {
        c
    }
}

pub open spec fn ascii_lowercase(s: Seq<char>) -> Seq<char> {
    s.map_values(|c: char| ascii_lower(c))
}

/// std documents `str::to_ascii_lowercase` as mapping 'A' to 'Z' onto 'a' to
/// 'z' and leaving every other character as it is.
pub assume_specification[ str::to_ascii_lowercase ](s: &str) -> (r: String)
    ensures
        r@ == ascii_lowercase(s@),
;

/// The first `n` entries of `s`, or all of it where it has fewer.
pub open spec fn first_n<A>(s: Seq<A>, n: int) -> Seq<A> {
    if s.len() <= n {
        s
    } else {
        s.take(n)
    }
}

/// How often `c` occurs in `s`.
pub open spec fn count_of(s: Seq<char>, c: char) -> nat
    decreases s.len(),
{
    if s.len() == 0 {
        0
    } else {
        count_of(s.drop_last(), c) + if s.last() == c {
            1nat
        } else {
            0nat
        }
    }
}

/// The parts that `sep` cuts `s` into: one more than `sep` occurs in `s`,
/// some of them empty where `sep` stands at an end or beside itself.
pub open spec fn split_on(s: Seq<char>, sep: char) -> Seq<Seq<char>>
    decreases s.len(),
{
    if s.len() == 0 {
        seq![Seq::empty()]
    } else {
        let init = split_on(s.drop_last(), sep);
        if s.last() == sep {
            init.push(Seq::empty())
        } else {
            init.drop_last().push(init.last().push(s.last()))
        }
    }
}

/// The parts put together again, with `sep` between each two.
pub open spec fn join_with(parts: Seq<Seq<char>>, sep: char) -> Seq<char>
    decreases parts.len(),
{
    if parts.len() == 0 {
        Seq::empty()
    } else if parts.len() == 1 {
        parts[0]
    } else {
        join_with(parts.drop_last(), sep).push(sep) + parts.last()
    }
}

/// The place of the last `c` in `s`.
pub open spec fn last_index_of(s: Seq<char>, c: char) -> Option<int>
    decreases s.len(),
{
    if s.len() == 0 {
        None
    } else if s.last() == c {
        Some(s.len() - 1)
    } else {
        last_index_of(s.drop_last(), c)
    }
}

/// How many characters at the front of `s` are white space.
pub open spec fn leading_blank(s: Seq<char>) -> nat
    decreases s.len(),
{
    if s.len() > 0 && is_white_space(s[0]) {
        1 + leading_blank(s.drop_first())
    } else {
        0
    }
}

/// How many characters at the end of `s` are white space.
pub open spec fn trailing_blank(s: Seq<char>) -> nat
    decreases s.len(),
{
    if s.len() > 0 && is_white_space(s.last()) {
        1 + trailing_blank(s.drop_last())
    } else {
        0
    }
}

/// `s` without the white space at its two ends.
pub open spec fn trimmed(s: Seq<char>) -> Seq<char> {
    if leading_blank(s) == s.len() {
        Seq::empty()
    } else {
        s.subrange(leading_blank(s) as int, s.len() - trailing_blank(s))
    }
}

/// Whether `s` holds nothing but white space.
pub open spec fn is_blank(s: Seq<char>) -> bool {
    forall|i: int| 0 <= i < s.len() ==> is_white_space(#[trigger] s[i])
}

/// `line` without a carriage return at its end.
pub open spec fn strip_cr(line: Seq<char>) -> Seq<char> {
    if line.len() > 0 && line.last() == '\r' {
        line.drop_last()
    } else {
        line
    }
}

/// The lines of `s` as std's `str::lines` gives them: `s` is cut at each line
/// feed, a carriage return before a line feed goes with it, and what follows
/// the last line feed is a line only where it is not empty.
pub open spec fn lines_of(s: Seq<char>) -> Seq<Seq<char>> {
    let parts = split_on(s, '\n');
    let ended = parts.drop_last().map_values(|l: Seq<char>| strip_cr(l));
    if parts.last().len() == 0 {
        ended
    } else {
        ended.push(parts.last())
    }
}

pub open spec fn line_views(lines: Seq<Vec<char>>) -> Seq<Seq<char>> {
    lines.map_values(|l: Vec<char>| l@)
}

/// The white space at the front of a text is a run of white space, and what
/// follows it is none.
pub proof fn lemma_leading_blank(s: Seq<char>)
    ensures
        leading_blank(s) <= s.len(),
        forall|i: int| 0 <= i < leading_blank(s) ==> is_white_space(#[trigger] s[i]),
        leading_blank(s) < s.len() ==> !is_white_space(s[leading_blank(s) as int]),
    decreases s.len(),
{
    if s.len() > 0 && is_white_space(s[0]) {
        let rest = s.drop_first();
        lemma_leading_blank(rest);
        assert forall|i: int| 0 <= i < leading_blank(s) implies is_white_space(
            #[trigger] s[i],
        ) by {
            if i > 0 {
                assert(s[i] == rest[i - 1]);
            }
        }
        if leading_blank(s) < s.len() {
            assert(s[leading_blank(s) as int] == rest[leading_blank(rest) as int]);
        }
    }
}

/// The white space at the end of a text is a run of white space, and what
/// stands before it is none.
pub proof fn lemma_trailing_blank(s: Seq<char>)
    ensures
        trailing_blank(s) <= s.len(),
        forall|i: int|
            s.len() - trailing_blank(s) <= i < s.len() ==> is_white_space(#[trigger] s[i]),
        trailing_blank(s) < s.len() ==> !is_white_space(s[s.len() - trailing_blank(s) - 1]),
    decreases s.len(),
{
    if s.len() > 0 && is_white_space(s.last()) {
        let rest = s.drop_last();
        lemma_trailing_blank(rest);
        assert forall|i: int| s.len() - trailing_blank(s) <= i < s.len() implies is_white_space(
            #[trigger] s[i],
        ) by {
            if i < rest.len() {
                assert(s[i] == rest[i]);
            }
        }
        if trailing_blank(s) < s.len() {
            assert(s[s.len() - trailing_blank(s) - 1] == rest[rest.len() - trailing_blank(rest)
                - 1]);
        }
    }
}

/// A trimmed text that is not empty neither begins nor ends with white
/// space.
pub proof fn lemma_trimmed_ends(s: Seq<char>)
    ensures
        trimmed(s).len() > 0 ==> !is_white_space(trimmed(s)[0]) && !is_white_space(
            trimmed(s).last(),
        ),
        trimmed(s).len() == 0 <==> is_blank(s),
{
    lemma_leading_blank(s);
    lemma_trailing_blank(s);
    let lead = leading_blank(s) as int;
    let trail = trailing_blank(s) as int;
    if lead < s.len() {
        if s.len() - trail <= lead {
            assert(is_white_space(s[lead]));
        }
        assert(lead < s.len() - trail);
        let t = s.subrange(lead, s.len() - trail);
        assert(t[0] == s[lead]);
        assert(t.last() == s[s.len() - trail - 1]);
    }
}

/// Where a text does not end with `sep`, its last part is not empty and
/// ends as the text ends.
pub proof fn lemma_last_part(s: Seq<char>, sep: char)
    requires
        s.len() > 0,
        s.last() != sep,
    ensures
        split_on(s, sep).len() >= 1,
        split_on(s, sep).last().len() > 0,
        split_on(s, sep).last().last() == s.last(),
{
    lemma_split_on(s.drop_last(), sep);
}

/// Cutting at `sep` gives one part more than `sep` occurs, no part holds
/// `sep`, and the parts joined with `sep` are the text that was cut.
pub proof fn lemma_split_on(s: Seq<char>, sep: char)
    ensures
        split_on(s, sep).len() == count_of(s, sep) + 1,
        forall|k: int, i: int|
            0 <= k < split_on(s, sep).len() && 0 <= i < split_on(s, sep)[k].len() ==> (
            #[trigger] split_on(s, sep)[k][i]) != sep,
        join_with(split_on(s, sep), sep) == s,
    decreases s.len(),
{
    let parts = split_on(s, sep);
    if s.len() == 0 {
        assert(join_with(parts, sep) == s);
    } else {
        let init = split_on(s.drop_last(), sep);
        lemma_split_on(s.drop_last(), sep);
        if s.last() == sep {
            assert(parts.drop_last() == init);
            assert(join_with(parts, sep) == join_with(init, sep).push(sep) + Seq::<char>::empty());
            assert(join_with(parts, sep) == s.drop_last().push(sep));
            assert(s.drop_last().push(sep) == s);
        } else {
            let last = init.last().push(s.last());
            assert(parts.last() == last);
            assert(parts.drop_last() == init.drop_last());
            if init.len() == 1 {
                assert(join_with(init, sep) == init[0]);
                assert(join_with(parts, sep) == last);
            } else {
                let head = join_with(init.drop_last(), sep).push(sep);
                assert(join_with(init, sep) == head + init.last());
                assert(join_with(parts, sep) == head + last);
                assert(head + last == (head + init.last()).push(s.last()));
            }
            assert(s.drop_last().push(s.last()) == s);
        }
    }
}

/// The characters of `s`, in order.
pub fn chars_of(s: &str) -> (out: Vec<char>)
    ensures
        out@ == s@,
{
    let mut out: Vec<char> = Vec::new();
    for c in it: s.chars()
        invariant
            it.seq() == s@,
            out@ == s@.take(it.index()),
    {
        out.push(c);
    }
    out
}

/// The text that holds `chars`, in order.
pub fn string_of(chars: &Vec<char>) -> (out: String)
    ensures
        out@ == chars@,
{
    let mut out = String::new();
    let mut i: usize = 0;
    while i < chars.len()
        invariant
            i <= chars.len(),
            out@ == chars@.take(i as int),
        decreases chars.len() - i,
    {
        out.push(chars[i]);
        i += 1;
    }
    out
}

/// The characters of `chars` from `from` up to `to`.
pub fn slice_of(chars: &Vec<char>, from: usize, to: usize) -> (out: Vec<char>)
    requires
        from <= to <= chars.len(),
    ensures
        out@ == chars@.subrange(from as int, to as int),
{
    let mut out: Vec<char> = Vec::new();
    let mut i: usize = from;
    while i < to
        invariant
            from <= i <= to <= chars.len(),
            out@ == chars@.subrange(from as int, i as int),
        decreases to - i,
    {
        out.push(chars[i]);
        i += 1;
    }
    out
}

/// The first `n` characters of `s`, or all of `s` where it has fewer.
pub fn take_chars(s: &str, n: usize) -> (out: String)
    ensures
        out@ == first_n(s@, n as int),
{
    let chars = chars_of(s);
    if chars.len() <= n {
        string_of(&chars)
    } else {
        let head = slice_of(&chars, 0, n);
        string_of(&head)
    }
}

/// Counts the occurrences of `c` among `chars`.
pub fn count_char(chars: &Vec<char>, c: char) -> (n: usize)
    ensures
        n == count_of(chars@, c),
{
    let mut n: usize = 0;
    let mut i: usize = 0;
    while i < chars.len()
        invariant
            i <= chars.len(),
            n == count_of(chars@.take(i as int), c),
            n <= i,
        decreases chars.len() - i,
    {
        proof {
            assert(chars@.take(i + 1).drop_last() == chars@.take(i as int));
        }
        if chars[i] == c {
            n += 1;
        }
        i += 1;
    }
    proof {
        assert(chars@.take(i as int) == chars@);
    }
    n
}

/// Cuts `chars` at each `sep`.
pub fn split_chars(chars: &Vec<char>, sep: char) -> (parts: Vec<Vec<char>>)
    ensures
        line_views(parts@) == split_on(chars@, sep),
        parts@.len() >= 1,
{
    let mut done: Vec<Vec<char>> = Vec::new();
    let mut current: Vec<char> = Vec::new();
    let mut i: usize = 0;
    proof {
        assert(chars@.take(0) == Seq::<char>::empty());
        assert(line_views(done@).push(current@) == seq![Seq::<char>::empty()]);
    }
    while i < chars.len()
        invariant
            i <= chars.len(),
            line_views(done@).push(current@) == split_on(chars@.take(i as int), sep),
        decreases chars.len() - i,
    {
        let ghost init = split_on(chars@.take(i as int), sep);
        let ghost done_before = done@;
        let ghost current_before = current@;
        proof {
            assert(chars@.take(i + 1).drop_last() == chars@.take(i as int));
            assert(init.last() == current_before);
            assert(init.drop_last() == line_views(done_before));
        }
        if chars[i] == sep {
            done.push(current);
            current = Vec::new();
            proof {
                assert(line_views(done@) == line_views(done_before).push(current_before));
            }
        } else {
            current.push(chars[i]);
        }
        i += 1;
    }
    proof {
        assert(chars@.take(i as int) == chars@);
    }
    let ghost done_before = done@;
    let ghost current_before = current@;
    done.push(current);
    proof {
        assert(line_views(done@) == line_views(done_before).push(current_before));
    }
    done
}

/// Finds the last `c` among the first `end` characters of `chars`.
pub fn rfind_char(chars: &Vec<char>, end: usize, c: char) -> (r: Option<usize>)
    requires
        end <= chars.len(),
    ensures
        match r {
            Some(i) => last_index_of(chars@.take(end as int), c) == Some(i as int) && i < end,
            None => last_index_of(chars@.take(end as int), c) is None,
        },
{
    let mut i: usize = end;
    while i > 0
        invariant
            i <= end <= chars.len(),
            last_index_of(chars@.take(end as int), c) == last_index_of(chars@.take(i as int), c),
        decreases i,
    {
        proof {
            assert(chars@.take(i as int).drop_last() == chars@.take(i - 1));
        }
        if chars[i - 1] == c {
            return Some(i - 1);
        }
        i -= 1;
    }
    None
}

/// Where `chars` begins and ends once the white space at its ends is left
/// out.
pub fn trim_bounds(chars: &Vec<char>) -> (bounds: (usize, usize))
    ensures
        bounds.0 <= bounds.1 <= chars.len(),
        chars@.subrange(bounds.0 as int, bounds.1 as int) == trimmed(chars@),
{
    let mut from: usize = 0;
    proof {
        assert(chars@.skip(0) == chars@);
    }
    while from < chars.len() && chars[from].is_whitespace()
        invariant
            from <= chars.len(),
            leading_blank(chars@) == from + leading_blank(chars@.skip(from as int)),
        decreases chars.len() - from,
    {
        proof {
            assert(chars@.skip(from as int).drop_first() == chars@.skip(from + 1));
        }
        from += 1;
    }
    if from == chars.len() {
        proof {
            assert(chars@.subrange(from as int, from as int) == Seq::<char>::empty());
        }
        return (from, from);
    }
    let mut to: usize = chars.len();
    proof {
        assert(chars@.take(to as int) == chars@);
    }
    while to > from + 1 && chars[to - 1].is_whitespace()
        invariant
            from < to <= chars.len(),
            !is_white_space(chars@[from as int]),
            trailing_blank(chars@) == (chars.len() - to) + trailing_blank(chars@.take(to as int)),
        decreases to,
    {
        proof {
            assert(chars@.take(to as int).drop_last() == chars@.take(to - 1));
        }
        to -= 1;
    }
    proof {
        assert(chars@.take(to as int).last() == chars@[to - 1]);
    }
    (from, to)
}

/// Whether `chars` holds nothing but white space.
pub fn all_blank(chars: &Vec<char>) -> (r: bool)
    ensures
        r == is_blank(chars@),
{
    let mut i: usize = 0;
    while i < chars.len()
        invariant
            i <= chars.len(),
            forall|k: int| 0 <= k < i ==> is_white_space(#[trigger] chars@[k]),
        decreases chars.len() - i,
    {
        if !chars[i].is_whitespace() {
            return false;
        }
        i += 1;
    }
    true
}

/// The lines of `chars`.
pub fn lines_of_chars(chars: &Vec<char>) -> (lines: Vec<Vec<char>>)
    ensures
        line_views(lines@) == lines_of(chars@),
{
    let mut parts = split_chars(chars, '\n');
    let ghost views = line_views(parts@);
    let last = match parts.pop() {
        Some(last) => last,
        None => Vec::new(),
    };
    let ghost ended_views = views.drop_last().map_values(|l: Seq<char>| strip_cr(l));
    proof {
        assert(line_views(parts@) == views.drop_last());
    }
    let mut lines: Vec<Vec<char>> = Vec::new();
    for part in it: parts
        invariant
            it.seq() == parts@,
            line_views(parts@) == views.drop_last(),
            ended_views == views.drop_last().map_values(|l: Seq<char>| strip_cr(l)),
            line_views(lines@) == ended_views.take(it.index()),
    {
        let ghost before = lines@;
        let ghost k = it.index();
        let n = part.len();
        let line = if n > 0 && part[n - 1] == '\r' {
            slice_of(&part, 0, n - 1)
        } else {
            part
        };
        proof {
            assert(line_views(parts@)[k] == part@);
            assert(line@ == strip_cr(part@));
        }
        lines.push(line);
        proof {
            assert(line_views(lines@) == line_views(before).push(strip_cr(part@)));
            assert(ended_views.take(k + 1) == ended_views.take(k).push(ended_views[k]));
        }
    }
    proof {
        assert(ended_views.take(ended_views.len() as int) == ended_views);
    }
    if last.len() > 0 {
        let ghost before = lines@;
        lines.push(last);
        proof {
            assert(line_views(lines@) == line_views(before).push(last@));
        }
    }
    lines
}

/// The text that an optional text stands for: nothing where it is absent.
pub open spec fn opt_text(text: Option<String>) -> Seq<char> {
    match text {
        Some(t) => t@,
        None => Seq::empty(),
    }
}

pub open spec fn opt_view(text: Option<String>) -> Option<Seq<char>> {
    match text {
        Some(t) => Some(t@),
        None => None,
    }
}

/// `s` without its last two parts, where `/` cuts it into three parts or
/// more.
pub open spec fn parent_path(s: Seq<char>) -> Option<Seq<char>> {
    match last_index_of(s, '/') {
        Some(j) => match last_index_of(s.take(j), '/') {
            Some(i) => Some(s.take(i)),
            None => None,
        },
        None => None,
    }
}

/// `s` with a backslash put before each double quote.
pub open spec fn escape_quotes(s: Seq<char>) -> Seq<char>
    decreases s.len(),
{
    if s.len() == 0 {
        Seq::empty()
    } else if s.last() == '"' {
        escape_quotes(s.drop_last()).push('\\').push('"')
    } else {
        escape_quotes(s.drop_last()).push(s.last())
    }
}

/// The text, or the empty text where there is none.
pub fn text_or_empty(text: &Option<String>) -> (out: String)
    ensures
        out@ == opt_text(*text),
{
    match text {
        Some(t) => t.clone(),
        None => String::new(),
    }
}

/// `s` without its last two parts.
pub fn parent_of(s: &str) -> (out: Option<String>)
    ensures
        opt_view(out) == parent_path(s@),
{
    let chars = chars_of(s);
    proof {
        assert(chars@.take(chars.len() as int) == chars@);
    }
    let last = match rfind_char(&chars, chars.len(), '/') {
        Some(j) => j,
        None => {
            return None;
        },
    };
    match rfind_char(&chars, last, '/') {
        Some(i) => {
            proof {
                assert(chars@.take(last as int).take(i as int) == chars@.take(i as int));
                assert(chars@.subrange(0, i as int) == chars@.take(i as int));
            }
            let head = slice_of(&chars, 0, i);
            Some(string_of(&head))
        },
        None => None,
    }
}

/// Puts a backslash before each double quote of `s`.
pub fn escape_quotes_in(s: &str) -> (out: String)
    ensures
        out@ == escape_quotes(s@),
{
    let chars = chars_of(s);
    let mut out = String::new();
    let mut i: usize = 0;
    proof {
        assert(chars@.take(0) == Seq::<char>::empty());
    }
    while i < chars.len()
        invariant
            i <= chars.len(),
            out@ == escape_quotes(chars@.take(i as int)),
        decreases chars.len() - i,
    {
        proof {
            assert(chars@.take(i + 1).drop_last() == chars@.take(i as int));
        }
        if chars[i] == '"' {
            out.push('\\');
            out.push('"');
        } else {
            out.push(chars[i]);
        }
        i += 1;
    }
    proof {
        assert(chars@.take(i as int) == chars@);
    }
    out
}

/// The character for a digit.
pub open spec fn digit_char(d: nat) -> char {
    if d == 0 {
        '0'
    } else if d == 1 {
        '1'
    } else if d == 2 {
        '2'
    } else if d == 3 {
        '3'
    } else if d == 4 {
        '4'
    } else if d == 5 {
        '5'
    } else if d == 6 {
        '6'
    } else if d == 7 {
        '7'
    } else if d == 8 {
        '8'
    } else {
        '9'
    }
}

/// `n` written in decimal digits, without leading zeros.
pub open spec fn decimal(n: nat) -> Seq<char>
    decreases n,
{
    if n < 10 {
        seq![digit_char(n)]
    } else {
        decimal(n / 10).push(digit_char(n % 10))
    }
}

fn digit_of(d: u64) -> (c: char)
    requires
        d < 10,
    ensures
        c == digit_char(d as nat),
{
    if d == 0 {
        '0'
    } else if d == 1 {
        '1'
    } else if d == 2 {
        '2'
    } else if d == 3 {
        '3'
    } else if d == 4 {
        '4'
    } else if d == 5 {
        '5'
    } else if d == 6 {
        '6'
    } else if d == 7 {
        '7'
    } else if d == 8 {
        '8'
    } else {
        '9'
    }
}

/// Writes `n` in decimal digits.
pub fn decimal_text(n: u64) -> (out: String)
    ensures
        out@ == decimal(n as nat),
{
    let mut digits: Vec<char> = Vec::new();
    let mut rest: u64 = n;
    while rest >= 10
        invariant
            decimal(n as nat) == decimal(rest as nat) + digits@.reverse(),
        decreases rest,
    {
        let ghost before = digits@;
        let d = digit_of(rest % 10);
        digits.push(d);
        proof {
            assert(digits@.reverse() == seq![d] + before.reverse());
            assert(decimal(rest as nat) == decimal((rest / 10) as nat).push(d));
            assert(decimal((rest / 10) as nat).push(d) + before.reverse() == decimal(
                (rest / 10) as nat,
            ) + (seq![d] + before.reverse()));
        }
        rest = rest / 10;
    }
    let mut out = String::new();
    out.push(digit_of(rest));
    let mut i: usize = digits.len();
    while i > 0
        invariant
            i <= digits.len(),
            rest < 10,
            decimal(n as nat) == decimal(rest as nat) + digits@.reverse(),
            out@ == decimal(rest as nat) + digits@.reverse().take(digits.len() - i),
        decreases i,
    {
        let ghost k = digits.len() - i;
        out.push(digits[i - 1]);
        proof {
            let r = digits@.reverse();
            assert(r[k] == digits@[i - 1]);
            assert(r.take(k + 1) == r.take(k).push(r[k]));
            assert(decimal(rest as nat) + r.take(k + 1) == (decimal(rest as nat) + r.take(k)).push(
                r[k],
            ));
        }
        i -= 1;
    }
    proof {
        let r = digits@.reverse();
        assert(r.take(digits.len() as int) == r);
    }
    out
}

} // verus!
