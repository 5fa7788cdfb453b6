//! Mouse positions as they are recorded, `(x, y)`, and the integer steps of
//! the movement analysis.
use crate::text::{
    all_digits, chars_of, decimal, digit_char, digits_value, in_class, parse_i32, parsed_i32,
    signed_decimal, signed_decimal_text, trim_chars, trim_end, trim_start, trimmed, CharClass,
};
use vstd::prelude::*;
use vstd::string::*;

verus! {

/// How a position is recorded: `(x, y)`.
pub open spec fn position_text(x: i32, y: i32) -> Seq<char> {
    "("@ + signed_decimal(x as int) + ", "@ + signed_decimal(y as int) + ")"@
}

/// Records a position as `(x, y)`.
pub fn format_position(x: i32, y: i32) -> (text: String)
    ensures
        text@ == position_text(x, y),
{
    let mut s = String::from_str("(");
    let a = signed_decimal_text(x as i64);
    s.append(a.as_str());
    s.append(", ");
    let b = signed_decimal_text(y as i64);
    s.append(b.as_str());
    s.append(")");
    s
}

/// How a movement from `last` to `new` is recorded: both positions as text.
pub open spec fn move_texts(last: (i32, i32), new: (i32, i32)) -> (Seq<char>, Seq<char>) {
    (position_text(last.0, last.1), position_text(new.0, new.1))
}

/// The movements recorded, one `record_move` after another, as the pointer
/// goes from `last` through `positions`.
pub open spec fn recorded_moves(last: (i32, i32), positions: Seq<(i32, i32)>) -> Seq<
    (Seq<char>, Seq<char>),
>
    decreases positions.len(),
{
    if positions.len() == 0 {
        Seq::empty()
    } else {
        seq![move_texts(last, positions[0])] + recorded_moves(positions[0], positions.drop_first())
    }
}

/// Recorded movements form a chain: the first starts at the position the
/// pointer had when recording began, each later one starts where the one
/// before ended, and each ends at the position the pointer moved to.
pub proof fn lemma_recorded_moves_chain(start: (i32, i32), positions: Seq<(i32, i32)>)
    ensures
        recorded_moves(start, positions).len() == positions.len(),
        positions.len() > 0 ==> recorded_moves(start, positions)[0].0 == position_text(
            start.0,
            start.1,
        ),
        forall|i: int|
            0 <= i < positions.len() ==> (#[trigger] recorded_moves(start, positions)[i]).1
                == position_text(positions[i].0, positions[i].1),
        forall|i: int|
            0 <= i < positions.len() - 1 ==> (#[trigger] recorded_moves(start, positions)[i + 1]).0
                == recorded_moves(start, positions)[i].1,
    decreases positions.len(),
{
    if positions.len() > 0 {
        let rest = positions.drop_first();
        lemma_recorded_moves_chain(positions[0], rest);
        let r = recorded_moves(start, positions);
        let tail = recorded_moves(positions[0], rest);
        assert(r == seq![move_texts(start, positions[0])] + tail);
        assert forall|i: int| 0 <= i < positions.len() implies (#[trigger] r[i]).1 == position_text(
            positions[i].0,
            positions[i].1,
        ) by {
            if i > 0 {
                assert(r[i] == tail[i - 1]);
                assert(rest[i - 1] == positions[i]);
            }
        }
        assert forall|i: int| 0 <= i < positions.len() - 1 implies (#[trigger] r[i + 1]).0 == r[i].1 by {
            assert(r[i + 1] == tail[i]);
            if i > 0 {
                assert(r[i] == tail[i - 1]);
            } else {
                if rest.len() > 0 {
                    assert(tail[0].0 == position_text(positions[0].0, positions[0].1));
                }
            }
        }
    }
}

/// Records a pointer movement from the last position seen to `new`: the
/// two positions as recorded, and `new` becomes the last position seen.
pub fn record_move(last: &mut (i32, i32), new: (i32, i32)) -> (texts: (String, String))
    ensures
        (texts.0@, texts.1@) == move_texts(*old(last), new),
        *final(last) == new,
{
    let original = format_position(last.0, last.1);
    let moved = format_position(new.0, new.1);
    *last = new;
    (original, moved)
}

/// The index of the first `,` of `s` at or after `i`.
pub open spec fn comma_from(s: Seq<char>, i: int) -> Option<int>
    decreases s.len() - i,
{
    if i < 0 || i >= s.len() {
        None
    } else if s[i] == ',' {
        Some(i)
    } else {
        comma_from(s, i + 1)
    }
}

/// A recorded position read back: brackets trimmed, then the text before the
/// first comma and the text between the first and any second comma, each
/// trimmed of white space and read as an `i32`.
pub open spec fn parsed_position(text: Seq<char>) -> Option<(i32, i32)> {
    let body = trimmed(trimmed(text, CharClass::Exactly('(')), CharClass::Exactly(')'));
    match comma_from(body, 0) {
        None => None,
        Some(c) => {
            let first = body.subrange(0, c);
            let rest = body.subrange(c + 1, body.len() as int);
            let second = match comma_from(rest, 0) {
                Some(d) => rest.subrange(0, d),
                None => rest,
            };
            match (
                parsed_i32(trimmed(first, CharClass::Whitespace)),
                parsed_i32(trimmed(second, CharClass::Whitespace)),
            ) {
                (Some(x), Some(y)) => Some((x, y)),
                _ => None,
            }
        },
    }
}

fn find_comma(s: &Vec<char>) -> (r: Option<usize>)
    ensures
        match r {
            Some(i) => comma_from(s@, 0) == Some(i as int) && i < s.len(),
            None => comma_from(s@, 0) is None,
        },
{
    let mut i: usize = 0;
    while i < s.len()
        invariant
            i <= s.len(),
            comma_from(s@, 0) == comma_from(s@, i as int),
        decreases s.len() - i,
    {
        if s[i] == ',' {
            return Some(i);
        }
        i += 1;
    }
    None
}

fn slice_chars(s: &Vec<char>, from: usize, to: usize) -> (r: Vec<char>)
    requires
        from <= to <= s.len(),
    ensures
        r@ == s@.subrange(from as int, to as int),
{
    let mut r: Vec<char> = Vec::new();
    let mut k = from;
    while k < to
        invariant
            from <= k <= to <= s.len(),
            r@ =~= s@.subrange(from as int, k as int),
        decreases to - k,
    {
        r.push(s[k]);
        k += 1;
    }
    r
}

/// Reads back a recorded position; `None` where the text is not one.
pub fn parse_position(text: &str) -> (r: Option<(i32, i32)>)
    ensures
        r == parsed_position(text@),
{
    let cs = chars_of(text);
    let opened = trim_chars(&cs, CharClass::Exactly('('));
    let body = trim_chars(&opened, CharClass::Exactly(')'));
    let c = match find_comma(&body) {
        None => {
            return None;
        },
        Some(c) => c,
    };
    let first = slice_chars(&body, 0, c);
    let rest = slice_chars(&body, c + 1, body.len());
    let second = match find_comma(&rest) {
        Some(d) => slice_chars(&rest, 0, d),
        None => slice_chars(&rest, 0, rest.len()),
    };
    assert(rest@.subrange(0, rest@.len() as int) =~= rest@);
    let x = parse_i32(&trim_chars(&first, CharClass::Whitespace));
    let y = parse_i32(&trim_chars(&second, CharClass::Whitespace));
    match (x, y) {
        (Some(x), Some(y)) => Some((x, y)),
        _ => None,
    }
}

/// The squared length of the step from `(x1, y1)` to `(x2, y2)`, computed as
/// the analysis does in `i32`; `None` where that arithmetic overflows.
pub open spec fn squared_step(x1: i32, y1: i32, x2: i32, y2: i32) -> Option<i32> {
    let dx = x2 - x1;
    let dy = y2 - y1;
    if dx < i32::MIN || dx > i32::MAX || dy < i32::MIN || dy > i32::MAX || dx == i32::MIN || dy
        == i32::MIN || dx * dx > i32::MAX || dy * dy > i32::MAX || dx * dx + dy * dy > i32::MAX {
        None
    } else {
        Some((dx * dx + dy * dy) as i32)
    }
}

/// The squared length of a mouse step; `None` where the analysis's `i32`
/// arithmetic would overflow.
pub fn squared_distance(x1: i32, y1: i32, x2: i32, y2: i32) -> (r: Option<i32>)
    ensures
        r == squared_step(x1, y1, x2, y2),
{
    let dx = x2 as i64 - x1 as i64;
    let dy = y2 as i64 - y1 as i64;
    if dx < i32::MIN as i64 || dx > i32::MAX as i64 || dy < i32::MIN as i64 || dy
        > i32::MAX as i64 || dx == i32::MIN as i64 || dy == i32::MIN as i64 {
        return None;
    }
    assert(0 <= dx * dx <= 0x4000_0000_0000_0000) by (nonlinear_arith)
        requires
            -0x7fff_ffff <= dx <= 0x7fff_ffff,
    ;
    assert(0 <= dy * dy <= 0x4000_0000_0000_0000) by (nonlinear_arith)
        requires
            -0x7fff_ffff <= dy <= 0x7fff_ffff,
    ;
    let sx = dx * dx;
    let sy = dy * dy;
    if sx > i32::MAX as i64 || sy > i32::MAX as i64 || sx + sy > i32::MAX as i64 {
        return None;
    }
    Some((sx + sy) as i32)
}

/// Nanoseconds from `from` to `to`; `None` where that does not fit an `i64`.
pub fn elapsed_nanos(from: i64, to: i64) -> (r: Option<i64>)
    ensures
        r == (if i64::MIN <= to - from <= i64::MAX {
            Some((to - from) as i64)
        } else {
            None::<i64>
        }),
{
    to.checked_sub(from)
}


proof fn lemma_digit_char(d: nat)
    requires
        d < 10,
    ensures
        digit_char(d) as int == 48 + d,
        '0' <= digit_char(d) <= '9',
{
    assert(0 <= d < 10);
    assert((48 + d) as char as int == 48 + d);
}

proof fn lemma_decimal_shape(n: nat)
    ensures
        decimal(n).len() >= 1,
        all_digits(decimal(n)),
        digits_value(decimal(n)) == n,
    decreases n,
{
    lemma_digit_char(n % 10);
    if n < 10 {
        let s = decimal(n);
        assert(s.drop_last() =~= Seq::<char>::empty());
        assert(digits_value(s.drop_last()) == 0);
        assert(s.last() == digit_char(n));
        assert(digits_value(s) == n);
    } else {
        lemma_decimal_shape(n / 10);
        let d = decimal(n / 10);
        let s = d.push(digit_char(n % 10));
        assert(s.drop_last() =~= d);
        assert(forall|i: int| 0 <= i < d.len() ==> s[i] == d[i]);
        assert(decimal(n) == s);
        assert(s.last() == digit_char(n % 10));
        assert(digits_value(s) == 10 * digits_value(d) + (n % 10));
        assert(n == 10 * (n / 10) + n % 10);
    }
}

proof fn lemma_signed_decimal_parses(v: i32)
    ensures
        parsed_i32(signed_decimal(v as int)) == Some(v),
        signed_decimal(v as int).len() >= 1,
        forall|i: int|
            0 <= i < signed_decimal(v as int).len() ==> {
                let c = #[trigger] signed_decimal(v as int)[i];
                ('0' <= c <= '9') || (i == 0 && c == '-')
            },
{
    let s = signed_decimal(v as int);
    if v < 0 {
        let m = (-(v as int)) as nat;
        lemma_decimal_shape(m);
        let d = decimal(m);
        assert(s.drop_first() =~= d);
        assert(forall|i: int| 1 <= i < s.len() ==> s[i] == d[i - 1]);
    } else {
        lemma_decimal_shape(v as nat);
    }
}

proof fn lemma_trim_keeps(s: Seq<char>, class: CharClass)
    requires
        s.len() > 0,
        !in_class(class, s[0]),
        !in_class(class, s.last()),
    ensures
        trimmed(s, class) == s,
{
}

proof fn lemma_comma_free(s: Seq<char>, i: int)
    requires
        0 <= i <= s.len(),
        forall|k: int| i <= k < s.len() ==> s[k] != ',',
    ensures
        comma_from(s, i) is None,
    decreases s.len() - i,
{
    if i < s.len() {
        lemma_comma_free(s, i + 1);
    }
}

proof fn lemma_first_comma(s: Seq<char>, i: int, c: int)
    requires
        0 <= i <= c < s.len(),
        s[c] == ',',
        forall|k: int| i <= k < c ==> s[k] != ',',
    ensures
        comma_from(s, i) == Some(c),
    decreases c - i,
{
    if i < c {
        lemma_first_comma(s, i + 1, c);
    }
}

/// A position recorded as text reads back as the same position.
pub proof fn lemma_recorded_position_reads_back(x: i32, y: i32)
    ensures
        parsed_position(position_text(x, y)) == Some((x, y)),
{
    reveal_strlit("(");
    reveal_strlit(", ");
    reveal_strlit(")");
    let a = signed_decimal(x as int);
    let b = signed_decimal(y as int);
    lemma_signed_decimal_parses(x);
    lemma_signed_decimal_parses(y);
    let text = position_text(x, y);
    let after_open = a + ", "@ + b + ")"@;
    let body = a + ", "@ + b;
    assert(text =~= seq!['('] + after_open);
    // trimming '(' removes the opening bracket only
    let open_class = CharClass::Exactly('(');
    assert(text[0] == '(');
    assert(text.drop_first() =~= after_open);
    assert(after_open[0] == a[0]);
    lemma_trim_keeps(after_open, open_class);
    assert(trim_start(text, open_class) == trim_start(after_open, open_class));
    assert(trim_start(after_open, open_class) == after_open);
    assert(trimmed(text, open_class) == after_open);
    // trimming ')' removes the closing bracket only
    let close_class = CharClass::Exactly(')');
    assert(after_open.last() == ')');
    assert(after_open.drop_last() =~= body);
    assert(body.last() == b.last());
    assert(body[0] == a[0]);
    lemma_trim_keeps(body, close_class);
    assert(trim_start(after_open, close_class) == after_open);
    assert(trim_end(after_open, close_class) == trim_end(body, close_class));
    assert(trimmed(after_open, close_class) == body);
    // the first comma follows the first number
    let c = a.len() as int;
    assert(body[c] == ',');
    assert(forall|k: int| 0 <= k < c ==> body[k] == a[k]);
    lemma_first_comma(body, 0, c);
    let first = body.subrange(0, c);
    assert(first =~= a);
    let rest = body.subrange(c + 1, body.len() as int);
    assert(rest =~= seq![' '] + b);
    assert(forall|k: int| 1 <= k < rest.len() ==> rest[k] == b[k - 1]);
    lemma_comma_free(rest, 0);
    // white space trimming
    lemma_trim_keeps(a, CharClass::Whitespace);
    assert(rest[0] == ' ');
    assert(rest.drop_first() =~= b);
    lemma_trim_keeps(b, CharClass::Whitespace);
    assert(trim_start(rest, CharClass::Whitespace) == trim_start(b, CharClass::Whitespace));
    assert(rest.last() == b.last());
    assert(trimmed(rest, CharClass::Whitespace) == b);
}
} // verus!
