//! The text form of indexed face lists: one record to a line, `v`, `vn`
//! and `vt` with numbers, `f` with slash-separated corner indices counted
//! from one.
use vstd::prelude::*;
use vstd::slice::slice_subrange;
use crate::mesh::{Mesh, MeshError, ObjBuilder, ObjCorner, ObjLists};
use crate::primitives::float2::Float2;
use crate::primitives::float3::Float3;
use crate::scalar::{Scalar, ONE_RAW};

verus! {

/// Whether a byte separates the words of a line: space, tab, line feed,
/// vertical tab, form feed or carriage return.
pub open spec fn is_space(b: u8) -> bool {
    b == 32 || (9 <= b && b <= 13)
}

/// Whether a byte is a decimal digit.
pub open spec fn is_digit(b: u8) -> bool {
    48 <= b && b <= 57
}

/// Whether every byte is a decimal digit.
pub open spec fn all_digits(s: Seq<u8>) -> bool {
    forall|i: int| 0 <= i < s.len() ==> is_digit(#[trigger] s[i])
}

/// The number that a row of decimal digits writes; zero for an empty row.
pub open spec fn digits_value(s: Seq<u8>) -> nat
    decreases s.len(),
{
    if s.len() == 0 {
        0
    } else {
        digits_value(s.drop_last()) * 10 + (s.last() - 48) as nat
    }
}

/// Ten to the power `n`.
pub open spec fn pow10(n: nat) -> nat
    decreases n,
{
    if n == 0 {
        1
    } else {
        10 * pow10((n - 1) as nat)
    }
}

/// Where the row of bytes that starts at `from` and holds no `stop` byte
/// ends: at the first `stop` byte, or at the end of `s`.
pub open spec fn run_end(s: Seq<u8>, from: int, stop: u8) -> int
    decreases s.len() - from,
{
    if from >= s.len() || s[from] == stop {
        from
    } else {
        run_end(s, from + 1, stop)
    }
}

/// Where the word that starts at `from` ends: at the first separator, or
/// at the end of `s`.
pub open spec fn word_end(s: Seq<u8>, from: int) -> int
    decreases s.len() - from,
{
    if from >= s.len() || is_space(s[from]) {
        from
    } else {
        word_end(s, from + 1)
    }
}

/// Where the next word at or after `from` starts: at the first byte that
/// is no separator, or at the end of `s`.
pub open spec fn word_start(s: Seq<u8>, from: int) -> int
    decreases s.len() - from,
{
    if from >= s.len() || !is_space(s[from]) {
        from
    } else {
        word_start(s, from + 1)
    }
}

/// The words of `s` from `from` on, in order.  A word starts at or after
/// `from`, is not empty and ends inside `s`; the tests for that are never
/// met and only show that the definition comes to an end.
pub open spec fn words(s: Seq<u8>, from: int) -> Seq<Seq<u8>>
    decreases s.len() - from,
{
    if from < 0 || from >= s.len() {
        Seq::empty()
    } else {
        let start = word_start(s, from);
        let end = word_end(s, start);
        if start < from || start >= s.len() || end <= start || end > s.len() {
            Seq::empty()
        } else {
            Seq::empty().push(s.subrange(start, end)) + words(s, end)
        }
    }
}

/// The whole number that a field of a corner writes: an optional plus sign
/// and at least one digit.  `None` for anything else.
pub open spec fn index_value(field: Seq<u8>) -> Option<nat> {
    let digits = if field.len() > 0 && field[0] == 43 {
        field.subrange(1, field.len() as int)
    } else {
        field
    };
    if digits.len() > 0 && all_digits(digits) {
        Some(digits_value(digits))
    } else {
        None
    }
}

/// How a number is written: an optional sign, digits, and optionally a
/// point and more digits, with a digit on at least one side of the point.
/// Gives the sign, the digits before the point and those after it.
pub open spec fn decimal_parts(word: Seq<u8>) -> Option<(bool, Seq<u8>, Seq<u8>)> {
    let negative = word.len() > 0 && word[0] == 45;
    let body = if word.len() > 0 && (word[0] == 45 || word[0] == 43) {
        word.subrange(1, word.len() as int)
    } else {
        word
    };
    let point = run_end(body, 0, 46);
    let whole = body.subrange(0, point);
    let fraction = if point < body.len() {
        body.subrange(point + 1, body.len() as int)
    } else {
        Seq::<u8>::empty()
    };
    if all_digits(whole) && all_digits(fraction) && whole.len() + fraction.len() > 0 {
        Some((negative, whole, fraction))
    } else {
        None
    }
}

/// Digits after the point that count; the rest is dropped.
pub const FRACTION_DIGITS: usize = 18;

/// The scalar that a number written as in [`decimal_parts`] stands for:
/// rounded toward zero, saturated, with the digits after the eighteenth
/// place behind the point dropped.  `None` where the word is no number.
pub open spec fn decimal_value(word: Seq<u8>) -> Option<Scalar> {
    match decimal_parts(word) {
        None => None,
        Some((negative, whole, fraction)) => {
            let kept = if fraction.len() > FRACTION_DIGITS {
                fraction.subrange(0, FRACTION_DIGITS as int)
            } else {
                fraction
            };
            let magnitude = digits_value(whole) * ONE_RAW + (digits_value(kept) * ONE_RAW) / (
            pow10(kept.len()) as int);
            Some(
                if negative {
                    Scalar::of(-magnitude)
                } else {
                    Scalar::of(magnitude)
                },
            )
        },
    }
}

/// Digits write a number that grows with every digit added and stays
/// below the power of ten of their count.
pub proof fn lemma_digits_value_bounds(s: Seq<u8>)
    requires
        all_digits(s),
    ensures
        digits_value(s) < pow10(s.len()),
        s.len() > 0 ==> digits_value(s.drop_last()) <= digits_value(s),
    decreases s.len(),
{
    if s.len() > 0 {
        lemma_digits_value_bounds(s.drop_last());
        assert(is_digit(s.last()));
    }
}

/// A longer row of digits writes no smaller a number than any of its
/// beginnings.
pub proof fn lemma_digits_value_grows(s: Seq<u8>, n: int)
    requires
        all_digits(s),
        0 <= n <= s.len(),
    ensures
        digits_value(s.subrange(0, n)) <= digits_value(s),
    decreases s.len() - n,
{
    if n == s.len() {
        assert(s.subrange(0, n) =~= s);
    } else {
        lemma_digits_value_grows(s, n + 1);
        lemma_digits_value_bounds(s.subrange(0, n + 1));
        assert(s.subrange(0, n + 1).drop_last() =~= s.subrange(0, n));
    }
}

fn is_space_byte(b: u8) -> (r: bool)
    ensures
        r == is_space(b),
{
    b == 32 || (9 <= b && b <= 13)
}

fn is_digit_byte(b: u8) -> (r: bool)
    ensures
        r == is_digit(b),
{
    48 <= b && b <= 57
}

/// The end of the row of bytes from `from` on that holds no `stop` byte.
fn find_run_end(s: &[u8], from: usize, stop: u8) -> (r: usize)
    requires
        from <= s@.len(),
    ensures
        r == run_end(s@, from as int, stop),
        from <= r <= s@.len(),
        r < s@.len() ==> s@[r as int] == stop,
        forall|i: int| from <= i < r ==> s@[i] != stop,
{
    let mut i: usize = from;
    while i < s.len() && s[i] != stop
        invariant
            from <= i <= s@.len(),
            run_end(s@, from as int, stop) == run_end(s@, i as int, stop),
            forall|j: int| from <= j < i ==> s@[j] != stop,
        decreases s@.len() - i,
    {
        i += 1;
    }
    i
}

/// The end of the word that starts at `from`.
fn find_word_end(s: &[u8], from: usize) -> (r: usize)
    requires
        from <= s@.len(),
    ensures
        r == word_end(s@, from as int),
        from <= r <= s@.len(),
        r < s@.len() ==> is_space(s@[r as int]),
        forall|i: int| from <= i < r ==> !is_space(s@[i]),
{
    let mut i: usize = from;
    while i < s.len() && !is_space_byte(s[i])
        invariant
            from <= i <= s@.len(),
            word_end(s@, from as int) == word_end(s@, i as int),
            forall|j: int| from <= j < i ==> !is_space(s@[j]),
        decreases s@.len() - i,
    {
        i += 1;
    }
    i
}

/// The start of the next word at or after `from`.
fn find_word_start(s: &[u8], from: usize) -> (r: usize)
    requires
        from <= s@.len(),
    ensures
        r == word_start(s@, from as int),
        from <= r <= s@.len(),
        r < s@.len() ==> !is_space(s@[r as int]),
{
    let mut i: usize = from;
    while i < s.len() && is_space_byte(s[i])
        invariant
            from <= i <= s@.len(),
            word_start(s@, from as int) == word_start(s@, i as int),
        decreases s@.len() - i,
    {
        i += 1;
    }
    i
}

/// The words of a line as pairs of start and end.
pub fn split_words(line: &[u8]) -> (r: Vec<(usize, usize)>)
    ensures
        r@.len() == words(line@, 0).len(),
        forall|k: int|
            0 <= k < r@.len() ==> {
                &&& (#[trigger] r@[k]).0 < r@[k].1 <= line@.len()
                &&& line@.subrange(r@[k].0 as int, r@[k].1 as int) == words(line@, 0)[k]
            },
{
    let mut out: Vec<(usize, usize)> = Vec::new();
    let mut at: usize = 0;
    loop
        invariant
            at <= line@.len(),
            words(line@, 0) == Seq::new(
                out@.len(),
                |k: int| line@.subrange(out@[k].0 as int, out@[k].1 as int),
            ) + words(line@, at as int),
            forall|k: int| 0 <= k < out@.len() ==> (#[trigger] out@[k]).0 < out@[k].1 <= line@.len(),
        decreases line@.len() - at,
    {
        let start = find_word_start(line, at);
        if start >= line.len() {
            assert(words(line@, at as int) =~= Seq::<Seq<u8>>::empty());
            assert(words(line@, 0) =~= Seq::new(
                out@.len(),
                |k: int| line@.subrange(out@[k].0 as int, out@[k].1 as int),
            ));
            return out;
        }
        let end = find_word_end(line, start);
        assert(end > start);
        let ghost before = out@;
        out.push((start, end));
        assert(Seq::new(
            out@.len(),
            |k: int| line@.subrange(out@[k].0 as int, out@[k].1 as int),
        ) =~= Seq::new(
            before.len(),
            |k: int| line@.subrange(before[k].0 as int, before[k].1 as int),
        ) + seq![line@.subrange(start as int, end as int)]);
        at = end;
    }
}

/// Reads a row of digits as a number, as far as it fits: `None` where it
/// exceeds `limit`.
fn read_digits(s: &[u8], limit: u128) -> (r: Option<u128>)
    requires
        all_digits(s@),
        limit <= 0xffff_ffff_ffff_ffff_ffff_ffff,
    ensures
        r matches Some(v) ==> v == digits_value(s@) && v <= limit,
        r is None ==> digits_value(s@) > limit,
{
    let mut acc: u128 = 0;
    let mut i: usize = 0;
    while i < s.len()
        invariant
            0 <= i <= s@.len(),
            all_digits(s@),
            limit <= 0xffff_ffff_ffff_ffff_ffff_ffff,
            acc == digits_value(s@.subrange(0, i as int)),
            acc <= limit,
        decreases s@.len() - i,
    {
        assert(is_digit(s@[i as int]));
        let d: u128 = (s[i] - 48) as u128;
        proof {
            assert(s@.subrange(0, i + 1).drop_last() =~= s@.subrange(0, i as int));
            assert(s@.subrange(0, i + 1).last() == s@[i as int]);
        }
        let next: u128 = acc * 10 + d;
        if next > limit {
            proof {
                lemma_digits_value_grows(s@, i + 1);
            }
            return None;
        }
        acc = next;
        i += 1;
    }
    assert(s@.subrange(0, i as int) =~= s@);
    Some(acc)
}

fn check_digits(s: &[u8]) -> (r: bool)
    ensures
        r == all_digits(s@),
{
    let mut i: usize = 0;
    while i < s.len()
        invariant
            i <= s@.len(),
            forall|j: int| 0 <= j < i ==> is_digit(#[trigger] s@[j]),
        decreases s@.len() - i,
    {
        if !is_digit_byte(s[i]) {
            return false;
        }
        i += 1;
    }
    true
}

/// Reads a field of a corner as a whole number: `None` where it is no
/// number or does not fit the machine's word.
pub fn parse_index(field: &[u8]) -> (r: Option<usize>)
    ensures
        r matches Some(v) ==> index_value(field@) == Some(v as nat),
        r is None ==> (index_value(field@) matches Some(v) ==> v > usize::MAX),
{
    let start: usize = if field.len() > 0 && field[0] == 43 {
        1
    } else {
        0
    };
    let digits = slice_subrange(field, start, field.len());
    assert(field@.subrange(0, field@.len() as int) =~= field@);
    if digits.len() == 0 || !check_digits(digits) {
        return None;
    }
    match read_digits(digits, usize::MAX as u128) {
        Some(v) => Some(v as usize),
        None => None,
    }
}

/// Powers of ten grow, and eighteen digits stay below `10^18`.
pub proof fn lemma_pow10_bound(n: nat)
    requires
        n <= 18,
    ensures
        1 <= pow10(n) <= 1_000_000_000_000_000_000,
        n < 18 ==> 10 * pow10(n) <= 1_000_000_000_000_000_000,
    decreases 18 - n,
{
    reveal_with_fuel(pow10, 20);
    assert(pow10(18) == 1_000_000_000_000_000_000);
    if n < 18 {
        lemma_pow10_bound(n + 1);
    }
}

fn power_of_ten(n: usize) -> (r: u128)
    requires
        n <= 18,
    ensures
        r == pow10(n as nat),
        1 <= r <= 1_000_000_000_000_000_000,
{
    let mut p: u128 = 1;
    let mut i: usize = 0;
    proof {
        lemma_pow10_bound(0);
    }
    while i < n
        invariant
            i <= n <= 18,
            p == pow10(i as nat),
            1 <= p <= 1_000_000_000_000_000_000,
        decreases n - i,
    {
        proof {
            lemma_pow10_bound(i as nat);
            lemma_pow10_bound((i + 1) as nat);
        }
        p = p * 10;
        i += 1;
    }
    p
}

/// Reads a word as a number: `None` where it is not written as in
/// [`decimal_parts`].
pub fn parse_decimal(word: &[u8]) -> (r: Option<Scalar>)
    ensures
        r == decimal_value(word@),
{
    let negative: bool = word.len() > 0 && word[0] == 45;
    let body_start: usize = if word.len() > 0 && (word[0] == 45 || word[0] == 43) {
        1
    } else {
        0
    };
    let body = slice_subrange(word, body_start, word.len());
    assert(word@.subrange(0, word@.len() as int) =~= word@);
    let point = find_run_end(body, 0, 46);
    let whole = slice_subrange(body, 0, point);
    let fraction = if point < body.len() {
        slice_subrange(body, point + 1, body.len())
    } else {
        slice_subrange(body, 0, 0)
    };
    assert(point >= body@.len() ==> fraction@ =~= Seq::<u8>::empty());
    if !check_digits(whole) || !check_digits(fraction) || whole.len() + fraction.len() == 0 {
        return None;
    }
    let kept = if fraction.len() > FRACTION_DIGITS {
        slice_subrange(fraction, 0, FRACTION_DIGITS)
    } else {
        fraction
    };
    proof {
        lemma_digits_value_bounds(kept@);
        lemma_pow10_bound(kept@.len());
    }
    let denominator: u128 = power_of_ten(kept.len());
    let part: u128 = match read_digits(kept, 1_000_000_000_000_000_000) {
        Some(v) => (v * 0x1_0000_0000u128) / denominator,
        None => 0,
    };
    assert(part == (digits_value(kept@) * ONE_RAW) / (pow10(kept@.len()) as int));
    assert(part <= 0x1_0000_0000u128) by (nonlinear_arith)
        requires
            part == ((digits_value(kept@) * 0x1_0000_0000) as int) / (denominator as int),
            digits_value(kept@) < denominator,
            denominator >= 1,
    ;
    match read_digits(whole, 0x8000_0000) {
        Some(w) => {
            let magnitude: i128 = (w * 0x1_0000_0000u128 + part) as i128;
            assert(magnitude == digits_value(whole@) * ONE_RAW + (digits_value(kept@) * ONE_RAW)
                / (pow10(kept@.len()) as int));
            if negative {
                Some(Scalar::saturate(-magnitude))
            } else {
                Some(Scalar::saturate(magnitude))
            }
        },
        None => {
            assert(digits_value(whole@) * ONE_RAW + (digits_value(kept@) * ONE_RAW) / (pow10(
                kept@.len(),
            ) as int) > i64::MAX) by (nonlinear_arith)
                requires
                    digits_value(whole@) > 0x8000_0000,
                    ONE_RAW == 0x1_0000_0000,
                    (digits_value(kept@) * ONE_RAW) / (pow10(kept@.len()) as int) == part,
                    part >= 0,
            ;
            if negative {
                Some(Scalar::from_raw(i64::MIN))
            } else {
                Some(Scalar::from_raw(i64::MAX))
            }
        },
    }
}

/// The index that a field of a corner gives, counted from zero: `None`
/// for a field that is empty, is no number, or is a number too large to
/// count with; an error for the number zero.
pub open spec fn field_index(field: Seq<u8>) -> Result<Option<usize>, MeshError> {
    match index_value(field) {
        None => Ok(None),
        Some(n) => if n == 0 {
            Err(MeshError::MalformedCorner)
        } else if n > usize::MAX {
            Ok(None)
        } else {
            Ok(Some((n - 1) as usize))
        },
    }
}

/// The corner that a word of a face record gives: its first three
/// slash-separated fields are the indices of position, texture coordinate
/// and normal, counted from one.  Further fields are not looked at.
pub open spec fn corner_of(word: Seq<u8>) -> Result<ObjCorner, MeshError> {
    let first = run_end(word, 0, 47);
    let second = run_end(word, first + 1, 47);
    let third = run_end(word, second + 1, 47);
    if first >= word.len() || second >= word.len() {
        Err(MeshError::MalformedCorner)
    } else {
        match (
            field_index(word.subrange(0, first)),
            field_index(word.subrange(first + 1, second)),
            field_index(word.subrange(second + 1, third)),
        ) {
            (Ok(vertex), Ok(uv), Ok(normal)) => Ok(ObjCorner { vertex, uv, normal }),
            _ => Err(MeshError::MalformedCorner),
        }
    }
}

fn parse_field(field: &[u8]) -> (r: Result<Option<usize>, MeshError>)
    ensures
        r == field_index(field@),
{
    match parse_index(field) {
        None => Ok(None),
        Some(n) => if n == 0 {
            Err(MeshError::MalformedCorner)
        } else {
            Ok(Some(n - 1))
        },
    }
}

/// Reads a word of a face record as a corner.
pub fn parse_corner(word: &[u8]) -> (r: Result<ObjCorner, MeshError>)
    ensures
        r == corner_of(word@),
{
    let first = find_run_end(word, 0, 47);
    if first >= word.len() {
        return Err(MeshError::MalformedCorner);
    }
    let second = find_run_end(word, first + 1, 47);
    if second >= word.len() {
        return Err(MeshError::MalformedCorner);
    }
    let third = find_run_end(word, second + 1, 47);
    let vertex = parse_field(slice_subrange(word, 0, first));
    let uv = parse_field(slice_subrange(word, first + 1, second));
    let normal = parse_field(slice_subrange(word, second + 1, third));
    match (vertex, uv, normal) {
        (Ok(vertex), Ok(uv), Ok(normal)) => Ok(ObjCorner { vertex, uv, normal }),
        _ => Err(MeshError::MalformedCorner),
    }
}

/// The numbers among `ws`, in order; a word that is no number is passed
/// over.
pub open spec fn numbers(ws: Seq<Seq<u8>>) -> Seq<Scalar>
    decreases ws.len(),
{
    if ws.len() == 0 {
        Seq::empty()
    } else {
        let before = numbers(ws.drop_last());
        match decimal_value(ws.last()) {
            Some(v) => before.push(v),
            None => before,
        }
    }
}

/// The corners that the words `ws` give, or the error of the first word
/// that gives none.
pub open spec fn corners(ws: Seq<Seq<u8>>) -> Result<Seq<ObjCorner>, MeshError>
    decreases ws.len(),
{
    if ws.len() == 0 {
        Ok(Seq::empty())
    } else {
        match corners(ws.drop_last()) {
            Err(e) => Err(e),
            Ok(before) => match corner_of(ws.last()) {
                Err(e) => Err(e),
                Ok(c) => Ok(before.push(c)),
            },
        }
    }
}

/// What one line adds to the lists.
///
/// A line of fewer than two words adds nothing.  Otherwise the first word
/// names the record: `v` adds a position of the first three numbers that
/// follow, `vn` a normal of them, brought to unit length, `vt` a texture
/// coordinate of the first two, and `f` the triangles of the face whose
/// corners follow.  Any other record adds nothing.
pub open spec fn line_step(lists: ObjLists, line: Seq<u8>) -> Result<ObjLists, MeshError> {
    let ws = words(line, 0);
    if ws.len() < 2 {
        Ok(lists)
    } else {
        let rest = ws.subrange(1, ws.len() as int);
        let n = numbers(rest);
        if ws[0] == seq![118u8] {
            if n.len() < 3 {
                Err(MeshError::MalformedVertex)
            } else {
                Ok(ObjLists { vertices: lists.vertices.push(Float3::new(n[0], n[1], n[2])), ..lists })
            }
        } else if ws[0] == seq![118u8, 110u8] {
            if n.len() < 3 {
                Err(MeshError::MalformedVertex)
            } else {
                Ok(
                    ObjLists {
                        normals: lists.normals.push(Float3::new(n[0], n[1], n[2]).normalized()),
                        ..lists
                    },
                )
            }
        } else if ws[0] == seq![118u8, 116u8] {
            if n.len() < 2 {
                Err(MeshError::MalformedVertex)
            } else {
                Ok(ObjLists { uvs: lists.uvs.push(Float2::new(n[0], n[1])), ..lists })
            }
        } else if ws[0] == seq![102u8] {
            match corners(rest) {
                Err(e) => Err(e),
                Ok(cs) => if lists.in_range(cs) {
                    Ok(lists.with_face(cs))
                } else {
                    Err(MeshError::IndexOutOfRange)
                },
            }
        } else {
            Ok(lists)
        }
    }
}

/// What the lines of `text` from `from` on add to the lists, one after the
/// other, up to the first line that cannot be read.  Lines end at a line
/// feed.  A line ends at or after its start and inside `text`; the test
/// for that is never met and only shows that the definition comes to an
/// end.
pub open spec fn read_lines(text: Seq<u8>, from: int, lists: ObjLists) -> Result<
    ObjLists,
    MeshError,
>
    decreases text.len() - from,
{
    if from < 0 || from >= text.len() {
        Ok(lists)
    } else {
        let end = run_end(text, from, 10);
        if end < from || end > text.len() {
            Ok(lists)
        } else {
            match line_step(lists, text.subrange(from, end)) {
                Err(e) => Err(e),
                Ok(next) => if end >= text.len() {
                    Ok(next)
                } else {
                    read_lines(text, end + 1, next)
                },
            }
        }
    }
}

fn word_is(line: &[u8], range: (usize, usize), first: u8, second: Option<u8>) -> (r: bool)
    requires
        range.0 < range.1 <= line@.len(),
    ensures
        r == (line@.subrange(range.0 as int, range.1 as int) == match second {
            Some(b) => seq![first, b],
            None => seq![first],
        }),
{
    let word = slice_subrange(line, range.0, range.1);
    match second {
        Some(b) => {
            let same = word.len() == 2 && word[0] == first && word[1] == b;
            assert(same ==> word@ =~= seq![first, b]);
            assert(!same ==> word@ != seq![first, b]) by {
                if word@ == seq![first, b] {
                    assert(seq![first, b].len() == 2);
                    assert(seq![first, b][0] == first && seq![first, b][1] == b);
                }
            }
            same
        },
        None => {
            let same = word.len() == 1 && word[0] == first;
            assert(same ==> word@ =~= seq![first]);
            assert(!same ==> word@ != seq![first]) by {
                if word@ == seq![first] {
                    assert(seq![first].len() == 1);
                    assert(seq![first][0] == first);
                }
            }
            same
        },
    }
}

/// The words of `ws` from the second on, as a sequence of byte rows.
pub open spec fn words_in(line: Seq<u8>, ranges: Seq<(usize, usize)>) -> Seq<Seq<u8>> {
    Seq::new(ranges.len(), |k: int| line.subrange(ranges[k].0 as int, ranges[k].1 as int))
}

fn read_numbers(line: &[u8], ranges: &Vec<(usize, usize)>) -> (r: Vec<Scalar>)
    requires
        ranges@.len() >= 1,
        forall|k: int|
            0 <= k < ranges@.len() ==> (#[trigger] ranges@[k]).0 < ranges@[k].1 <= line@.len(),
    ensures
        r@ == numbers(words_in(line@, ranges@).subrange(1, ranges@.len() as int)),
{
    let ghost ws = words_in(line@, ranges@);
    let mut out: Vec<Scalar> = Vec::new();
    let mut k: usize = 1;
    assert(ws.subrange(1, 1) =~= Seq::<Seq<u8>>::empty());
    while k < ranges.len()
        invariant
            1 <= k <= ranges@.len(),
            ws == words_in(line@, ranges@),
            forall|j: int|
                0 <= j < ranges@.len() ==> (#[trigger] ranges@[j]).0 < ranges@[j].1 <= line@.len(),
            out@ == numbers(ws.subrange(1, k as int)),
        decreases ranges@.len() - k,
    {
        let word = slice_subrange(line, ranges[k].0, ranges[k].1);
        proof {
            assert(ws.subrange(1, k + 1).drop_last() =~= ws.subrange(1, k as int));
            assert(ws.subrange(1, k + 1).last() == word@);
        }
        match parse_decimal(word) {
            Some(v) => {
                out.push(v);
            },
            None => {},
        }
        k += 1;
    }
    out
}

fn read_corners(line: &[u8], ranges: &Vec<(usize, usize)>) -> (r: Result<Vec<ObjCorner>, MeshError>)
    requires
        ranges@.len() >= 1,
        forall|k: int|
            0 <= k < ranges@.len() ==> (#[trigger] ranges@[k]).0 < ranges@[k].1 <= line@.len(),
    ensures
        match corners(words_in(line@, ranges@).subrange(1, ranges@.len() as int)) {
            Ok(cs) => r matches Ok(v) && v@ == cs,
            Err(e) => r == Err::<Vec<ObjCorner>, MeshError>(e),
        },
{
    let ghost ws = words_in(line@, ranges@);
    let mut out: Vec<ObjCorner> = Vec::new();
    let mut k: usize = 1;
    assert(ws.subrange(1, 1) =~= Seq::<Seq<u8>>::empty());
    while k < ranges.len()
        invariant
            1 <= k <= ranges@.len(),
            ws == words_in(line@, ranges@),
            forall|j: int|
                0 <= j < ranges@.len() ==> (#[trigger] ranges@[j]).0 < ranges@[j].1 <= line@.len(),
            corners(ws.subrange(1, k as int)) == Ok::<Seq<ObjCorner>, MeshError>(out@),
        decreases ranges@.len() - k,
    {
        let word = slice_subrange(line, ranges[k].0, ranges[k].1);
        proof {
            assert(ws.subrange(1, k + 1).drop_last() =~= ws.subrange(1, k as int));
            assert(ws.subrange(1, k + 1).last() == word@);
        }
        match parse_corner(word) {
            Ok(c) => {
                out.push(c);
            },
            Err(e) => {
                proof {
                    assert(ws.subrange(1, ranges@.len() as int).subrange(0, k as int)
                        =~= ws.subrange(1, k + 1));
                    assert(corners(ws.subrange(1, k + 1)) == Err::<Seq<ObjCorner>, MeshError>(e));
                    lemma_corners_error_stays(ws.subrange(1, ranges@.len() as int), k - 1, e);
                }
                return Err(e);
            },
        }
        k += 1;
    }
    Ok(out)
}

/// Once a beginning of a row of words fails with an error, the whole row
/// fails with the same error.
pub proof fn lemma_corners_error_stays(ws: Seq<Seq<u8>>, n: int, e: MeshError)
    requires
        0 <= n < ws.len(),
        corners(ws.subrange(0, n + 1)) == Err::<Seq<ObjCorner>, MeshError>(e),
    ensures
        corners(ws) == Err::<Seq<ObjCorner>, MeshError>(e),
    decreases ws.len() - n,
{
    if n + 1 == ws.len() {
        assert(ws.subrange(0, n + 1) =~= ws);
    } else {
        assert(ws.subrange(0, n + 2).drop_last() =~= ws.subrange(0, n + 1));
        lemma_corners_error_stays(ws, n + 1, e);
    }
}

impl ObjBuilder {
    /// Reads one line and adds what it holds.  On an error the builder is
    /// as it was.
    pub fn push_line(&mut self, line: &[u8]) -> (r: Result<(), MeshError>)
        ensures
            match line_step(old(self)@, line@) {
                Ok(next) => r is Ok && final(self)@ == next,
                Err(e) => r == Err::<(), MeshError>(e) && final(self)@ == old(self)@,
            },
    {
        let ranges = split_words(line);
        assert(words_in(line@, ranges@) =~= words(line@, 0));
        if ranges.len() < 2 {
            return Ok(());
        }
        if word_is(line, ranges[0], 118, None) {
            let n = read_numbers(line, &ranges);
            if n.len() < 3 {
                return Err(MeshError::MalformedVertex);
            }
            self.push_vertex(Float3::new(n[0], n[1], n[2]));
            Ok(())
        } else if word_is(line, ranges[0], 118, Some(110)) {
            let n = read_numbers(line, &ranges);
            if n.len() < 3 {
                return Err(MeshError::MalformedVertex);
            }
            self.push_normal(Float3::new(n[0], n[1], n[2]));
            Ok(())
        } else if word_is(line, ranges[0], 118, Some(116)) {
            let n = read_numbers(line, &ranges);
            if n.len() < 2 {
                return Err(MeshError::MalformedVertex);
            }
            self.push_uv(Float2::new(n[0], n[1]));
            Ok(())
        } else if word_is(line, ranges[0], 102, None) {
            match read_corners(line, &ranges) {
                Err(e) => Err(e),
                Ok(cs) => self.push_face(cs.as_slice()),
            }
        } else {
            Ok(())
        }
    }
}

impl Mesh {
    /// Reads the text of an indexed face list, line by line, and gives the
    /// mesh of its triangles, or the error of the first line that cannot
    /// be read.
    pub fn from_obj_file(contents: &[u8]) -> (r: Result<Mesh, MeshError>)
        ensures
            match read_lines(contents@, 0, ObjLists::empty()) {
                Ok(lists) => r matches Ok(mesh) && mesh.data@ == lists.faces,
                Err(e) => r matches Err(err) && err == e,
            },
    {
        let mut builder = ObjBuilder::new();
        assert(builder@ == ObjLists::empty()) by {
            assert(builder@.vertices =~= Seq::<Float3>::empty());
            assert(builder@.normals =~= Seq::<Float3>::empty());
            assert(builder@.uvs =~= Seq::<Float2>::empty());
            assert(builder@.faces =~= Seq::empty());
        }
        let mut at: usize = 0;
        while at < contents.len()
            invariant
                at <= contents@.len(),
                read_lines(contents@, 0, ObjLists::empty()) == read_lines(
                    contents@,
                    at as int,
                    builder@,
                ),
            decreases contents@.len() - at,
        {
            let end = find_run_end(contents, at, 10);
            let line = slice_subrange(contents, at, end);
            match builder.push_line(line) {
                Err(e) => {
                    return Err(e);
                },
                Ok(()) => {},
            }
            if end >= contents.len() {
                return Ok(builder.finish());
            }
            at = end + 1;
        }
        Ok(builder.finish())
    }
}

} // verus!
