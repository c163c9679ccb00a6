use crate::stats::CachegrindStats;
use vstd::prelude::*;
use vstd::string::*;

verus! {

/// Why a field of the summary line is not a 64-bit unsigned number.
#[derive(Clone, Copy, Debug, PartialEq, Eq, Structural)]
pub enum NumberError {
    /// The field holds no character at all.
    Empty,
    /// A character that is no decimal digit, or a sign with nothing behind it.
    InvalidDigit,
    /// The digits read so far already exceed 64 bits.
    Overflow,
}

/// Why a report could not be turned into counters.
#[derive(Clone, Copy, Debug, PartialEq, Eq, Structural)]
pub enum ParseError {
    EventsNotFound,
    SummaryNotFound,
    InvalidNumber(NumberError),
}

/// The characters that separate fields: Unicode's `White_Space` property.
pub open spec fn is_whitespace(c: char) -> bool {
    let u = c as u32;
    ||| 0x09 <= u <= 0x0d
    ||| u == 0x20
    ||| u == 0x85
    ||| u == 0xa0
    ||| u == 0x1680
    ||| 0x2000 <= u <= 0x200a
    ||| u == 0x2028
    ||| u == 0x2029
    ||| u == 0x202f
    ||| u == 0x205f
    ||| u == 0x3000
}

/// The character is one of the ten decimal digits.
pub open spec fn is_digit(c: char) -> bool {
    0x30 <= c as u32 <= 0x39
}

/// Value of a decimal digit; zero for any other character.
pub open spec fn digit_value(c: char) -> nat {
    if is_digit(c) {
        (c as u32 - 0x30) as nat
    } else {
        0
    }
}

/// Every character is a decimal digit.
pub open spec fn all_digits(s: Seq<char>) -> bool {
    forall|i: int| 0 <= i < s.len() ==> is_digit(#[trigger] s[i])
}

/// The number that a string of decimal digits denotes.
pub open spec fn decimal_value(s: Seq<char>) -> nat
    decreases s.len(),
{
    if s.len() == 0 {
        0
    } else {
        10 * decimal_value(s.drop_last()) + digit_value(s.last())
    }
}

/// A field without its optional leading plus sign.
pub open spec fn unsigned_digits(token: Seq<char>) -> Seq<char> {
    if token.len() > 0 && token[0] == '+' {
        token.skip(1)
    } else {
        token
    }
}

/// Reading from the left, the digits exceed 64 bits before any other
/// character is met.
pub open spec fn overflows_first(digits: Seq<char>) -> bool {
    exists|k: int|
        0 <= k <= digits.len() && all_digits(#[trigger] digits.take(k)) && decimal_value(
            digits.take(k),
        ) > u64::MAX
}

/// What a field of the summary line stands for: an optional plus sign and
/// at least one decimal digit, within 64 bits.
pub open spec fn parse_u64_spec(token: Seq<char>) -> Result<u64, NumberError> {
    let digits = unsigned_digits(token);
    if token.len() == 0 {
        Err(NumberError::Empty)
    } else if digits.len() > 0 && all_digits(digits) && decimal_value(digits) <= u64::MAX {
        Ok(decimal_value(digits) as u64)
    } else if overflows_first(digits) {
        Err(NumberError::Overflow)
    } else {
        Err(NumberError::InvalidDigit)
    }
}

/// The fields left of `s`, with `current` the field that is being read.
pub open spec fn fields_from(s: Seq<char>, current: Seq<char>) -> Seq<Seq<char>>
    decreases s.len(),
{
    let finished = if current.len() > 0 {
        seq![current]
    } else {
        Seq::<Seq<char>>::empty()
    };
    if s.len() == 0 {
        finished
    } else if is_whitespace(s[0]) {
        finished + fields_from(s.drop_first(), Seq::<char>::empty())
    } else {
        fields_from(s.drop_first(), current.push(s[0]))
    }
}

/// The maximal runs of characters that are not white space, in order.
pub open spec fn split_whitespace(s: Seq<char>) -> Seq<Seq<char>> {
    fields_from(s, Seq::<char>::empty())
}

/// Position `p` is where a line begins.
pub open spec fn line_starts_at(text: Seq<char>, p: int) -> bool {
    0 <= p <= text.len() && (p == 0 || text[p - 1] == '\n')
}

/// `label` stands in `text` at position `p`.
pub open spec fn has_prefix_at(text: Seq<char>, p: int, label: Seq<char>) -> bool {
    0 <= p && p + label.len() <= text.len() && text.subrange(p, p + label.len()) == label
}

/// The start of the last line at or before `upto` that begins with `label`.
pub open spec fn last_labelled_line(text: Seq<char>, label: Seq<char>, upto: int) -> Option<int>
    decreases upto + 1,
{
    if upto < 0 {
        None
    } else if line_starts_at(text, upto) && has_prefix_at(text, upto, label) {
        Some(upto)
    } else {
        last_labelled_line(text, label, upto - 1)
    }
}

/// Where the line that holds position `from` ends: at the next line feed,
/// or at the end of the text.
pub open spec fn line_end(text: Seq<char>, from: int) -> int
    decreases text.len() - from,
{
    if from < 0 || from >= text.len() {
        text.len() as int
    } else if text[from] == '\n' {
        from
    } else {
        line_end(text, from + 1)
    }
}

/// The fields of the last line that begins with `label`, without the label.
pub open spec fn labelled_fields(text: Seq<char>, label: Seq<char>) -> Option<Seq<Seq<char>>> {
    match last_labelled_line(text, label, text.len() as int) {
        None => None,
        Some(p) => Some(
            split_whitespace(text.subrange(p + label.len(), line_end(text, p + label.len()))),
        ),
    }
}

/// The first position from `from` on, below `n`, whose field is no number.
pub open spec fn first_invalid(fields: Seq<Seq<char>>, from: int, n: int) -> Option<int>
    decreases n - from,
{
    if from < 0 || from >= n || n > fields.len() {
        None
    } else if parse_u64_spec(fields[from]) is Err {
        Some(from)
    } else {
        first_invalid(fields, from + 1, n)
    }
}

/// The number of a field, zero where it is none.
pub open spec fn number_of(field: Seq<char>) -> u64 {
    match parse_u64_spec(field) {
        Ok(v) => v,
        Err(_) => 0,
    }
}

/// The count paired with the last of the first `n` event names that equals
/// `name`; zero where the name does not occur among them.
pub open spec fn count_of(
    events: Seq<Seq<char>>,
    summary: Seq<Seq<char>>,
    name: Seq<char>,
    n: int,
) -> u64
    decreases n,
{
    if n <= 0 || n > events.len() || n > summary.len() {
        0
    } else if events[n - 1] == name {
        number_of(summary[n - 1])
    } else {
        count_of(events, summary, name, n - 1)
    }
}

/// The length of the shorter of two lists of fields.
pub open spec fn min_len(a: Seq<Seq<char>>, b: Seq<Seq<char>>) -> int {
    if a.len() <= b.len() {
        a.len() as int
    } else {
        b.len() as int
    }
}

/// The counters that the event names and the summary fields give, paired
/// by position up to the shorter of the two.
pub open spec fn counters_of(events: Seq<Seq<char>>, summary: Seq<Seq<char>>) -> Result<
    CachegrindStats,
    ParseError,
> {
    let n = min_len(events, summary);
    match first_invalid(summary, 0, n) {
        Some(i) => Err(ParseError::InvalidNumber(parse_u64_spec(summary[i])->Err_0)),
        None => Ok(
            CachegrindStats {
                instruction_reads: count_of(events, summary, "Ir"@, n),
                instruction_l1_misses: count_of(events, summary, "I1mr"@, n),
                instruction_cache_misses: count_of(events, summary, "ILmr"@, n),
                data_reads: count_of(events, summary, "Dr"@, n),
                data_l1_read_misses: count_of(events, summary, "D1mr"@, n),
                data_cache_read_misses: count_of(events, summary, "DLmr"@, n),
                data_writes: count_of(events, summary, "Dw"@, n),
                data_l1_write_misses: count_of(events, summary, "D1mw"@, n),
                data_cache_write_misses: count_of(events, summary, "DLmw"@, n),
            },
        ),
    }
}

/// What a report's text stands for.
pub open spec fn parse_spec(text: Seq<char>) -> Result<CachegrindStats, ParseError> {
    match labelled_fields(text, "events: "@) {
        None => Err(ParseError::EventsNotFound),
        Some(events) => match labelled_fields(text, "summary: "@) {
            None => Err(ParseError::SummaryNotFound),
            Some(summary) => counters_of(events, summary),
        },
    }
}

/// The fields of a list, each as its sequence of characters.
pub open spec fn views(fields: Seq<Vec<char>>) -> Seq<Seq<char>> {
    Seq::new(fields.len(), |i: int| fields[i]@)
}


/// Says whether `c` separates fields.
pub fn is_space(c: char) -> (b: bool)
    ensures
        b == is_whitespace(c),
{
    let u: u32 = c as u32;
    (0x09 <= u && u <= 0x0d) || u == 0x20 || u == 0x85 || u == 0xa0 || u == 0x1680 || (0x2000 <= u
        && u <= 0x200a) || u == 0x2028 || u == 0x2029 || u == 0x202f || u == 0x205f || u == 0x3000
}

proof fn lemma_decimal_value_step(s: Seq<char>, k: int)
    requires
        0 <= k < s.len(),
    ensures
        decimal_value(s.take(k + 1)) == 10 * decimal_value(s.take(k)) + digit_value(s[k]),
{
    assert(s.take(k + 1).drop_last() =~= s.take(k));
}

proof fn lemma_decimal_value_grows(s: Seq<char>, k: int, j: int)
    requires
        0 <= k <= j <= s.len(),
    ensures
        decimal_value(s.take(k)) <= decimal_value(s.take(j)),
    decreases j - k,
{
    if k < j {
        lemma_decimal_value_grows(s, k, j - 1);
        lemma_decimal_value_step(s, j - 1);
    }
}

/// Reads a field of the summary line as a 64-bit unsigned decimal number.
pub fn parse_u64(token: &Vec<char>) -> (number: Result<u64, NumberError>)
    ensures
        number == parse_u64_spec(token@),
{
    let len = token.len();
    if len == 0 {
        return Err(NumberError::Empty);
    }
    let start: usize = if token[0] == '+' {
        1
    } else {
        0
    };
    let ghost digits = unsigned_digits(token@);
    assert(digits =~= token@.skip(start as int));
    let mut i: usize = start;
    let mut value: u64 = 0;
    assert(digits.take(0) =~= Seq::<char>::empty());
    while i < len
        invariant
            start <= i <= len,
            0 < len == token@.len(),
            digits == token@.skip(start as int),
            digits == unsigned_digits(token@),
            all_digits(digits.take(i - start)),
            value == decimal_value(digits.take(i - start)),
        decreases len - i,
    {
        let c = token[i];
        let u: u32 = c as u32;
        let ghost k = i - start;
        proof {
            lemma_decimal_value_step(digits, k);
            assert(digits[k] == c);
        }
        if !(0x30 <= u && u <= 0x39) {
            proof {
                assert(!all_digits(digits)) by {
                    if all_digits(digits) {
                        assert(is_digit(digits[k]));
                    }
                }
                assert forall|j: int| 0 <= j <= digits.len() && all_digits(
                    #[trigger] digits.take(j),
                ) implies decimal_value(digits.take(j)) <= u64::MAX by {
                    if j > k {
                        assert(digits.take(j)[k] == digits[k]);
                        assert(is_digit(digits.take(j)[k]));
                    }
                    lemma_decimal_value_grows(digits, j, k);
                }
            }
            return Err(NumberError::InvalidDigit);
        }
        let d: u64 = (u - 0x30) as u64;
        proof {
            assert forall|j: int| 0 <= j < k + 1 implies is_digit(
                #[trigger] digits.take(k + 1)[j],
            ) by {
                if j < k {
                    assert(digits.take(k)[j] == digits[j]);
                }
            }
            lemma_decimal_value_grows(digits, k + 1, digits.len() as int);
            assert(digits.take(digits.len() as int) =~= digits);
        }
        if value > (u64::MAX - d) / 10 {
            proof {
                assert(decimal_value(digits.take(k + 1)) > u64::MAX);
            }
            return Err(NumberError::Overflow);
        }
        value = value * 10 + d;
        i += 1;
    }
    proof {
        assert(digits.take(digits.len() as int) =~= digits);
    }
    if i == start {
        proof {
            assert forall|j: int| 0 <= j <= digits.len() implies decimal_value(
                #[trigger] digits.take(j),
            ) <= u64::MAX by {
                assert(digits.take(j) =~= Seq::<char>::empty());
            }
        }
        return Err(NumberError::InvalidDigit);
    }
    Ok(value)
}

proof fn lemma_views_push(fields: Seq<Vec<char>>, field: Vec<char>)
    ensures
        views(fields.push(field)) == views(fields) + seq![field@],
{
    assert(views(fields.push(field)) =~= views(fields) + seq![field@]);
}

/// Splits the characters from `start` up to `end` into fields.
pub fn split_fields(text: &Vec<char>, start: usize, end: usize) -> (fields: Vec<Vec<char>>)
    requires
        start <= end <= text@.len(),
    ensures
        views(fields@) == split_whitespace(text@.subrange(start as int, end as int)),
{
    let ghost s = text@.subrange(start as int, end as int);
    let mut fields: Vec<Vec<char>> = Vec::new();
    let mut current: Vec<char> = Vec::new();
    let mut i: usize = start;
    proof {
        assert(s.skip(0) =~= s);
        assert(views(fields@) =~= Seq::<Seq<char>>::empty());
        assert(views(fields@) + fields_from(s, current@) =~= fields_from(s, current@));
    }
    while i < end
        invariant
            start <= i <= end <= text@.len(),
            s == text@.subrange(start as int, end as int),
            split_whitespace(s) == views(fields@) + fields_from(s.skip(i - start), current@),
        decreases end - i,
    {
        let c = text[i];
        let ghost rest = s.skip(i - start);
        proof {
            assert(rest[0] == c);
            assert(rest.drop_first() =~= s.skip(i + 1 - start));
        }
        if is_space(c) {
            if current.len() > 0 {
                proof {
                    lemma_views_push(fields@, current);
                    assert((views(fields@) + seq![current@]) + fields_from(
                        rest.drop_first(),
                        Seq::<char>::empty(),
                    ) =~= views(fields@) + (seq![current@] + fields_from(
                        rest.drop_first(),
                        Seq::<char>::empty(),
                    )));
                }
                fields.push(current);
                current = Vec::new();
            } else {
                proof {
                    assert(current@ =~= Seq::<char>::empty());
                    assert(Seq::<Seq<char>>::empty() + fields_from(
                        rest.drop_first(),
                        Seq::<char>::empty(),
                    ) =~= fields_from(rest.drop_first(), Seq::<char>::empty()));
                }
            }
        } else {
            current.push(c);
        }
        i += 1;
    }
    proof {
        assert(s.skip(i - start).len() == 0);
    }
    if current.len() > 0 {
        proof {
            lemma_views_push(fields@, current);
        }
        fields.push(current);
    } else {
        proof {
            assert(views(fields@) + Seq::<Seq<char>>::empty() =~= views(fields@));
        }
    }
    fields
}

/// Finds where the line that holds position `from` ends.
pub fn find_line_end(text: &Vec<char>, from: usize) -> (end: usize)
    requires
        from <= text@.len(),
    ensures
        end == line_end(text@, from as int),
        from <= end <= text@.len(),
{
    let mut i: usize = from;
    while i < text.len() && text[i] != '\n'
        invariant
            from <= i <= text@.len(),
            line_end(text@, from as int) == line_end(text@, i as int),
        decreases text@.len() - i,
    {
        i += 1;
    }
    i
}

/// Says whether `label` stands in `text` at position `p`.
pub fn starts_with_at(text: &Vec<char>, p: usize, label: &str) -> (b: bool)
    requires
        p <= text@.len(),
    ensures
        b == has_prefix_at(text@, p as int, label@),
{
    let n = label.unicode_len();
    if n > text.len() - p {
        return false;
    }
    let mut j: usize = 0;
    while j < n
        invariant
            0 <= j <= n,
            n == label@.len(),
            p + n <= text.len(),
            forall|k: int| 0 <= k < j ==> text@[p + k] == label@[k],
        decreases n - j,
    {
        if text[p + j] != label.get_char(j) {
            proof {
                assert(text@.subrange(p as int, p + n)[j as int] == text@[p + j]);
            }
            return false;
        }
        j += 1;
    }
    proof {
        assert(text@.subrange(p as int, p + n) =~= label@);
    }
    true
}

/// Finds the start of the last line that begins with `label`.
pub fn find_labelled_line(text: &Vec<char>, label: &str) -> (start: Option<usize>)
    ensures
        match last_labelled_line(text@, label@, text@.len() as int) {
            Some(p) => start == Some(p as usize) && 0 <= p <= text@.len() && has_prefix_at(
                text@,
                p,
                label@,
            ),
            None => start is None,
        },
{
    let mut p: usize = text.len();
    loop
        invariant
            0 <= p <= text@.len(),
            last_labelled_line(text@, label@, text@.len() as int) == last_labelled_line(
                text@,
                label@,
                p as int,
            ),
        decreases p,
    {
        if (p == 0 || text[p - 1] == '\n') && starts_with_at(text, p, label) {
            return Some(p);
        }
        if p == 0 {
            assert(last_labelled_line(text@, label@, -1) is None);
            return None;
        }
        p -= 1;
    }
}

/// The fields of the last line that begins with `label`, if there is one.
pub fn labelled_line_fields(text: &Vec<char>, label: &str) -> (fields: Option<Vec<Vec<char>>>)
    ensures
        match labelled_fields(text@, label@) {
            Some(expected) => fields is Some && views(fields->Some_0@) == expected,
            None => fields is None,
        },
{
    match find_labelled_line(text, label) {
        None => None,
        Some(p) => {
            let total = text.len();
            let width = label.unicode_len();
            assert(has_prefix_at(text@, p as int, label@));
            assert(p + width <= total);
            let from = p + width;
            let end = find_line_end(text, from);
            Some(split_fields(text, from, end))
        },
    }
}

/// Says whether a field spells `name`.
pub fn field_is(field: &Vec<char>, name: &str) -> (b: bool)
    ensures
        b == (field@ == name@),
{
    if field.len() != name.unicode_len() {
        return false;
    }
    let b = starts_with_at(field, 0, name);
    proof {
        assert(field@.subrange(0, field@.len() as int) =~= field@);
    }
    b
}


/// Pairs the event names with the summary fields by position and reads
/// the nine counters out of the pairs. A name that does not occur counts
/// zero; of a name that occurs twice the later pair counts. Fields beyond
/// the shorter of the two lists are not looked at.
pub fn counters_from_fields(events: &Vec<Vec<char>>, summary: &Vec<Vec<char>>) -> (outcome: Result<
    CachegrindStats,
    ParseError,
>)
    ensures
        outcome == counters_of(views(events@), views(summary@)),
{
    let n: usize = if events.len() <= summary.len() {
        events.len()
    } else {
        summary.len()
    };
    let ghost names = views(events@);
    let ghost fields = views(summary@);
    let mut stats = CachegrindStats {
        instruction_reads: 0,
        instruction_l1_misses: 0,
        instruction_cache_misses: 0,
        data_reads: 0,
        data_l1_read_misses: 0,
        data_cache_read_misses: 0,
        data_writes: 0,
        data_l1_write_misses: 0,
        data_cache_write_misses: 0,
    };
    let mut i: usize = 0;
    while i < n
        invariant
            0 <= i <= n,
            n == min_len(names, fields),
            names == views(events@),
            fields == views(summary@),
            first_invalid(fields, 0, n as int) == first_invalid(fields, i as int, n as int),
            stats.instruction_reads == count_of(names, fields, "Ir"@, i as int),
            stats.instruction_l1_misses == count_of(names, fields, "I1mr"@, i as int),
            stats.instruction_cache_misses == count_of(names, fields, "ILmr"@, i as int),
            stats.data_reads == count_of(names, fields, "Dr"@, i as int),
            stats.data_l1_read_misses == count_of(names, fields, "D1mr"@, i as int),
            stats.data_cache_read_misses == count_of(names, fields, "DLmr"@, i as int),
            stats.data_writes == count_of(names, fields, "Dw"@, i as int),
            stats.data_l1_write_misses == count_of(names, fields, "D1mw"@, i as int),
            stats.data_cache_write_misses == count_of(names, fields, "DLmw"@, i as int),
        decreases n - i,
    {
        assert(fields[i as int] == summary@[i as int]@);
        assert(names[i as int] == events@[i as int]@);
        let count: u64 = match parse_u64(&summary[i]) {
            Ok(count) => count,
            Err(kind) => {
                return Err(ParseError::InvalidNumber(kind));
            },
        };
        let name = &events[i];
        if field_is(name, "Ir") {
            stats.instruction_reads = count;
        }
        if field_is(name, "I1mr") {
            stats.instruction_l1_misses = count;
        }
        if field_is(name, "ILmr") {
            stats.instruction_cache_misses = count;
        }
        if field_is(name, "Dr") {
            stats.data_reads = count;
        }
        if field_is(name, "D1mr") {
            stats.data_l1_read_misses = count;
        }
        if field_is(name, "DLmr") {
            stats.data_cache_read_misses = count;
        }
        if field_is(name, "Dw") {
            stats.data_writes = count;
        }
        if field_is(name, "D1mw") {
            stats.data_l1_write_misses = count;
        }
        if field_is(name, "DLmw") {
            stats.data_cache_write_misses = count;
        }
        i += 1;
    }
    Ok(stats)
}

/// Reads the counters out of a report given as its characters.
pub fn parse_chars(text: &Vec<char>) -> (outcome: Result<CachegrindStats, ParseError>)
    ensures
        outcome == parse_spec(text@),
{
    let events = match labelled_line_fields(text, "events: ") {
        Some(events) => events,
        None => {
            return Err(ParseError::EventsNotFound);
        },
    };
    let summary = match labelled_line_fields(text, "summary: ") {
        Some(summary) => summary,
        None => {
            return Err(ParseError::SummaryNotFound);
        },
    };
    counters_from_fields(&events, &summary)
}

/// The characters of a string slice, in order.
pub fn chars_of(s: &str) -> (chars: Vec<char>)
    ensures
        chars@ == s@,
{
    let mut chars: Vec<char> = Vec::new();
    for c in it: s.chars()
        invariant
            it.seq() == s@,
            chars@ == it.seq().take(it.index() as int),
    {
        chars.push(c);
        assert(chars@ =~= it.seq().take(it.index() + 1));
    }
    assert(chars@ =~= s@);
    chars
}

/// Reads the nine counters out of the text of a simulator report.
///
/// The last line that begins with `events: ` names the events, the last one
/// that begins with `summary: ` gives their counts in the same order.
pub fn parse_cachegrind_output(report: &str) -> (outcome: Result<CachegrindStats, ParseError>)
    ensures
        outcome == parse_spec(report@),
{
    let text = chars_of(report);
    parse_chars(&text)
}

impl NumberError {
    /// The words that describe the fault.
    pub open spec fn message_spec(self) -> Seq<char> {
        match self {
            NumberError::Empty => "cannot parse integer from empty string"@,
            NumberError::InvalidDigit => "invalid digit found in string"@,
            NumberError::Overflow => "number too large to fit in target type"@,
        }
    }

    /// The words that describe the fault.
    pub fn message(&self) -> (text: String)
        ensures
            text@ == self.message_spec(),
    {
        match self {
            NumberError::Empty => String::from_str("cannot parse integer from empty string"),
            NumberError::InvalidDigit => String::from_str("invalid digit found in string"),
            NumberError::Overflow => String::from_str("number too large to fit in target type"),
        }
    }
}

impl ParseError {
    /// The one-line description of the error.
    pub open spec fn message_spec(self) -> Seq<char> {
        match self {
            ParseError::EventsNotFound => "Could not find the 'events' line"@,
            ParseError::SummaryNotFound => "Could not find the 'summary' line"@,
            ParseError::InvalidNumber(kind) => "'summary' line contained an invalid number: "@
                + kind.message_spec(),
        }
    }

    /// The one-line description of the error.
    pub fn message(&self) -> (text: String)
        ensures
            text@ == self.message_spec(),
    {
        match self {
            ParseError::EventsNotFound => String::from_str("Could not find the 'events' line"),
            ParseError::SummaryNotFound => String::from_str("Could not find the 'summary' line"),
            ParseError::InvalidNumber(kind) => {
                let detail = kind.message();
                String::from_str("'summary' line contained an invalid number: ").concat(
                    detail.as_str(),
                )
            },
        }
    }
}


/// A field is never empty and holds no white space.
pub open spec fn is_field(field: Seq<char>) -> bool {
    field.len() > 0 && forall|i: int| 0 <= i < field.len() ==> !is_whitespace(#[trigger] field[i])
}

proof fn lemma_fields_from(s: Seq<char>, current: Seq<char>)
    requires
        forall|i: int| 0 <= i < current.len() ==> !is_whitespace(#[trigger] current[i]),
    ensures
        forall|k: int|
            0 <= k < fields_from(s, current).len() ==> is_field(#[trigger] fields_from(s, current)[k]),
    decreases s.len(),
{
    let finished = if current.len() > 0 {
        seq![current]
    } else {
        Seq::<Seq<char>>::empty()
    };
    assert(forall|k: int| 0 <= k < finished.len() ==> is_field(#[trigger] finished[k]));
    if s.len() == 0 {
        assert(fields_from(s, current) == finished);
    } else if is_whitespace(s[0]) {
        let rest = fields_from(s.drop_first(), Seq::<char>::empty());
        assert(fields_from(s, current) == finished + rest);
        lemma_fields_from(s.drop_first(), Seq::<char>::empty());
        assert forall|k: int| 0 <= k < (finished + rest).len() implies is_field(
            #[trigger] (finished + rest)[k],
        ) by {
            if k >= finished.len() {
                assert((finished + rest)[k] == rest[k - finished.len()]);
            } else {
                assert((finished + rest)[k] == finished[k]);
            }
        }
    } else {
        assert(fields_from(s, current) == fields_from(s.drop_first(), current.push(s[0])));
        lemma_fields_from(s.drop_first(), current.push(s[0]));
    }
}

/// Splitting at white space leaves fields that are not empty and hold no
/// white space, and a text without white space is its own single field.
pub proof fn lemma_split_whitespace(s: Seq<char>)
    ensures
        forall|k: int|
            0 <= k < split_whitespace(s).len() ==> is_field(#[trigger] split_whitespace(s)[k]),
        is_field(s) ==> split_whitespace(s) == seq![s],
        s.len() == 0 ==> split_whitespace(s).len() == 0,
{
    lemma_fields_from(s, Seq::<char>::empty());
    if is_field(s) {
        lemma_field_alone(s, 0);
        assert(s.take(0) =~= Seq::<char>::empty());
        assert(s.skip(0) =~= s);
    }
}

proof fn lemma_field_alone(s: Seq<char>, k: int)
    requires
        0 <= k <= s.len(),
        is_field(s),
    ensures
        fields_from(s.skip(k), s.take(k)) == seq![s],
    decreases s.len() - k,
{
    if k == s.len() {
        assert(s.take(k) =~= s);
    } else {
        lemma_field_alone(s, k + 1);
        assert(s.skip(k).drop_first() =~= s.skip(k + 1));
        assert(s.take(k).push(s.skip(k)[0]) =~= s.take(k + 1));
        assert(!is_whitespace(s[k]));
    }
}

/// A string of decimal digits within 64 bits is read as the number it
/// denotes, with or without a plus sign in front.
pub proof fn lemma_parse_u64_accepts(digits: Seq<char>)
    requires
        digits.len() > 0,
        all_digits(digits),
        decimal_value(digits) <= u64::MAX,
    ensures
        parse_u64_spec(digits) == Ok::<u64, NumberError>(decimal_value(digits) as u64),
        parse_u64_spec(seq!['+'] + digits) == Ok::<u64, NumberError>(decimal_value(digits) as u64),
{
    assert(is_digit(digits[0]));
    assert(digits[0] != '+');
    assert((seq!['+'] + digits).skip(1) =~= digits);
}


/// The line found is the last one that begins with the label: it begins
/// with it, and no line after it up to `upto` does. Where none is found,
/// no line up to `upto` begins with the label.
pub proof fn lemma_last_labelled_line(text: Seq<char>, label: Seq<char>, upto: int)
    ensures
        match last_labelled_line(text, label, upto) {
            Some(p) => {
                &&& 0 <= p <= upto
                &&& line_starts_at(text, p)
                &&& has_prefix_at(text, p, label)
                &&& forall|q: int|
                    p < q <= upto ==> !(line_starts_at(text, q) && #[trigger] has_prefix_at(
                        text,
                        q,
                        label,
                    ))
            },
            None => forall|q: int|
                0 <= q <= upto ==> !(line_starts_at(text, q) && #[trigger] has_prefix_at(
                    text,
                    q,
                    label,
                )),
        },
    decreases upto + 1,
{
    if upto >= 0 && !(line_starts_at(text, upto) && has_prefix_at(text, upto, label)) {
        lemma_last_labelled_line(text, label, upto - 1);
    }
}

/// A line ends at the first line feed at or after the position, or at the
/// end of the text where none follows.
pub proof fn lemma_line_end(text: Seq<char>, from: int)
    requires
        0 <= from <= text.len(),
    ensures
        from <= line_end(text, from) <= text.len(),
        forall|i: int| from <= i < line_end(text, from) ==> #[trigger] text[i] != '\n',
        line_end(text, from) == text.len() || text[line_end(text, from)] == '\n',
    decreases text.len() - from,
{
    if from < text.len() && text[from] != '\n' {
        lemma_line_end(text, from + 1);
    }
}

/// The field that is reported as invalid is the first one that is no
/// number; where none is reported, every field up to `n` is a number.
pub proof fn lemma_first_invalid(fields: Seq<Seq<char>>, from: int, n: int)
    requires
        0 <= from <= n <= fields.len(),
    ensures
        match first_invalid(fields, from, n) {
            Some(i) => {
                &&& from <= i < n
                &&& parse_u64_spec(fields[i]) is Err
                &&& forall|j: int| from <= j < i ==> parse_u64_spec(#[trigger] fields[j]) is Ok
            },
            None => forall|j: int| from <= j < n ==> parse_u64_spec(#[trigger] fields[j]) is Ok,
        },
    decreases n - from,
{
    if from < n && parse_u64_spec(fields[from]) is Ok {
        lemma_first_invalid(fields, from + 1, n);
    }
}

/// An event that is not named among the first `n` counts zero.
pub proof fn lemma_count_of_absent(
    events: Seq<Seq<char>>,
    summary: Seq<Seq<char>>,
    name: Seq<char>,
    n: int,
)
    requires
        forall|i: int| 0 <= i < n && i < events.len() ==> #[trigger] events[i] != name,
    ensures
        count_of(events, summary, name, n) == 0,
    decreases n,
{
    if 0 < n && n <= events.len() && n <= summary.len() {
        lemma_count_of_absent(events, summary, name, n - 1);
    }
}

/// An event counts what stands at the position of its last naming.
pub proof fn lemma_count_of_last(
    events: Seq<Seq<char>>,
    summary: Seq<Seq<char>>,
    name: Seq<char>,
    n: int,
    at: int,
)
    requires
        0 <= at < n,
        n <= events.len(),
        n <= summary.len(),
        events[at] == name,
        forall|i: int| at < i < n ==> #[trigger] events[i] != name,
    ensures
        count_of(events, summary, name, n) == number_of(summary[at]),
    decreases n,
{
    if at < n - 1 {
        assert(events[n - 1] != name);
        lemma_count_of_last(events, summary, name, n - 1, at);
    }
}

} // verus!
