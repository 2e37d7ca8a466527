//! The part of JSON's grammar that a trace uses: objects whose members hold
//! strings and non-negative numbers.
use vstd::prelude::*;
use crate::event::{
    async_object, begin_tail, complete_object, complete_tail, dur_key, end_tail, id_key, name_key,
    objects, pid_key, tid_key, ts_key, SlimEvent,
};
use crate::json::{decimal, escape_byte, escaped, fraction, hex_digit, micros};
use vstd::string::StringSliceAdditionalSpecFns;

verus! {

/// A character that may follow a backslash in a JSON string.
pub open spec fn simple_escape(c: u8) -> bool {
    c == 34 || c == 92 || c == 47 || c == 98 || c == 102 || c == 110 || c == 114 || c == 116
}

/// A hexadecimal digit, in either case.
pub open spec fn is_hex_digit(c: u8) -> bool {
    (48 <= c <= 57) || (97 <= c <= 102) || (65 <= c <= 70)
}

/// Whether `s` may stand between the quotes of a JSON string: each byte is
/// either an escape (a backslash and a simple escape character, or `\u` and
/// four hexadecimal digits) or neither a quote, a backslash nor a control
/// character.
pub open spec fn string_content(s: Seq<u8>) -> bool
    decreases s.len(),
{
    if s.len() == 0 {
        true
    } else if s[0] == 92 {
        if s.len() >= 2 && simple_escape(s[1]) {
            string_content(s.skip(2))
        } else if s.len() >= 6 && s[1] == 117 && is_hex_digit(s[2]) && is_hex_digit(s[3])
            && is_hex_digit(s[4]) && is_hex_digit(s[5]) {
            string_content(s.skip(6))
        } else {
            false
        }
    } else {
        s[0] >= 32 && s[0] != 34 && string_content(s.skip(1))
    }
}

/// A non-empty run of decimal digits.
pub open spec fn digits(s: Seq<u8>) -> bool {
    s.len() > 0 && forall|i: int| 0 <= i < s.len() ==> 48 <= #[trigger] s[i] <= 57
}

/// The integer part of a JSON number: digits, with no leading zero.
pub open spec fn integer_text(s: Seq<u8>) -> bool {
    digits(s) && (s.len() == 1 || s[0] != 48)
}

/// A value of a JSON object's member.
pub enum JsonValue {
    /// A string with the given contents, quotes left out.
    Str(Seq<u8>),
    /// A non-negative number: its integer part, and the digits after its
    /// point (none for an integer).
    Number(Seq<u8>, Seq<u8>),
}

/// Whether `v` is well formed.
pub open spec fn value_ok(v: JsonValue) -> bool {
    match v {
        JsonValue::Str(c) => string_content(c),
        JsonValue::Number(i, f) => integer_text(i) && (f.len() == 0 || digits(f)),
    }
}

/// The text of `v`.
pub open spec fn value_text(v: JsonValue) -> Seq<u8> {
    match v {
        JsonValue::Str(c) => seq![34u8] + c + seq![34u8],
        JsonValue::Number(i, f) => if f.len() == 0 {
            i
        } else {
            i + seq![46u8] + f
        },
    }
}

/// The text of a member with key `k` (quotes left out) and value `v`.
pub open spec fn member_text(m: (Seq<u8>, JsonValue)) -> Seq<u8> {
    seq![34u8] + m.0 + seq![34u8, 58u8] + value_text(m.1)
}

/// The members `ms`, separated by commas.
pub open spec fn members_text(ms: Seq<(Seq<u8>, JsonValue)>) -> Seq<u8>
    decreases ms.len(),
{
    if ms.len() == 0 {
        Seq::empty()
    } else if ms.len() == 1 {
        member_text(ms[0])
    } else {
        members_text(ms.drop_last()) + seq![44u8] + member_text(ms.last())
    }
}

/// The text of the object with members `ms`.
pub open spec fn object_text(ms: Seq<(Seq<u8>, JsonValue)>) -> Seq<u8> {
    seq![123u8] + members_text(ms) + seq![125u8]
}

/// Whether every key and value of `ms` is well formed.
pub open spec fn members_ok(ms: Seq<(Seq<u8>, JsonValue)>) -> bool {
    forall|i: int| 0 <= i < ms.len() ==> string_content((#[trigger] ms[i]).0) && value_ok(ms[i].1)
}

/// Whether `o` is the text of a JSON object.
pub open spec fn is_json_object(o: Seq<u8>) -> bool {
    exists|ms: Seq<(Seq<u8>, JsonValue)>| members_ok(ms) && o == object_text(ms)
}

/// Two runs of string contents, one after the other, are string contents.
pub proof fn lemma_content_concat(a: Seq<u8>, b: Seq<u8>)
    requires
        string_content(a),
        string_content(b),
    ensures
        string_content(a + b),
    decreases a.len(),
{
    if a.len() == 0 {
        assert(a + b =~= b);
    } else {
        if a[0] == 92 {
            if a.len() >= 2 && simple_escape(a[1]) {
                lemma_content_concat(a.skip(2), b);
                assert((a + b).skip(2) =~= a.skip(2) + b);
                assert((a + b)[1] == a[1]);
            } else {
                lemma_content_concat(a.skip(6), b);
                assert((a + b).skip(6) =~= a.skip(6) + b);
                assert((a + b)[1] == a[1]);
                assert((a + b)[2] == a[2]);
                assert((a + b)[3] == a[3]);
                assert((a + b)[4] == a[4]);
                assert((a + b)[5] == a[5]);
            }
        } else {
            lemma_content_concat(a.skip(1), b);
            assert((a + b).skip(1) =~= a.skip(1) + b);
        }
        assert((a + b)[0] == a[0]);
    }
}

/// The escaped form of one byte is string contents.
pub proof fn lemma_escape_byte_content(b: u8)
    ensures
        string_content(escape_byte(b)),
{
    let s = escape_byte(b);
    let e = Seq::<u8>::empty();
    assert(string_content(e));
    if b == 34 || b == 92 {
        assert(s.skip(2) =~= e);
    } else if b < 32 {
        assert(s.skip(6) =~= e);
        assert(is_hex_digit(hex_digit(b as nat / 16)));
        assert(is_hex_digit(hex_digit(b as nat % 16)));
    } else {
        assert(s.skip(1) =~= e);
    }
}

/// The escaped form of any bytes is string contents.
pub proof fn lemma_escaped_content(s: Seq<u8>)
    ensures
        string_content(escaped(s)),
    decreases s.len(),
{
    if s.len() > 0 {
        lemma_escaped_content(s.drop_last());
        lemma_escape_byte_content(s.last());
        lemma_content_concat(escaped(s.drop_last()), escape_byte(s.last()));
    }
}

/// The decimal form of a number is the integer part of a JSON number.
pub proof fn lemma_decimal_integer(n: nat)
    ensures
        integer_text(decimal(n)),
        n > 0 ==> decimal(n)[0] != 48,
    decreases n,
{
    if n >= 10 {
        lemma_decimal_integer(n / 10);
        let d = decimal(n);
        assert(d[0] == decimal(n / 10)[0]);
        assert forall|i: int| 0 <= i < d.len() implies 48 <= #[trigger] d[i] <= 57 by {
            if i < d.len() - 1 {
                assert(d[i] == decimal(n / 10)[i]);
            }
        }
    }
}

/// The digits after the point of a duration are digits.
pub proof fn lemma_fraction_digits(r: nat)
    requires
        0 < r < 1000,
    ensures
        digits(fraction(r)),
{
}

/// A duration of `ns` nanoseconds in microseconds, as a JSON number.
pub open spec fn micros_value(ns: nat) -> JsonValue {
    JsonValue::Number(
        decimal(ns / 1000),
        if ns % 1000 == 0 {
            Seq::empty()
        } else {
            fraction(ns % 1000)
        },
    )
}

/// An integer as a JSON number.
pub open spec fn integer_value(n: nat) -> JsonValue {
    JsonValue::Number(decimal(n), Seq::empty())
}

proof fn lemma_micros_value(ns: nat)
    ensures
        value_ok(micros_value(ns)),
        value_text(micros_value(ns)) == micros(ns),
{
    lemma_decimal_integer(ns / 1000);
    if ns % 1000 != 0 {
        lemma_fraction_digits(ns % 1000);
    }
}

proof fn lemma_integer_value(n: nat)
    ensures
        value_ok(integer_value(n)),
        value_text(integer_value(n)) == decimal(n),
{
    lemma_decimal_integer(n);
}

proof fn lemma_short_string(c: Seq<u8>)
    requires
        forall|i: int| 0 <= i < c.len() ==> 97 <= #[trigger] c[i] <= 122 || c[i] == 88,
    ensures
        string_content(c),
    decreases c.len(),
{
    if c.len() > 0 {
        lemma_short_string(c.skip(1));
    }
}

/// The members of the object of a complete span.
pub open spec fn complete_members(e: SlimEvent, pid: u32) -> Seq<(Seq<u8>, JsonValue)> {
    seq![
        (seq![110u8, 97, 109, 101], JsonValue::Str(escaped(e.name.spec_bytes()))),
        (seq![116u8, 115], micros_value(e.from as nat)),
        (seq![100u8, 117, 114], micros_value((e.to - e.from) as nat)),
        (seq![112u8, 105, 100], integer_value(pid as nat)),
        (seq![116u8, 105, 100], integer_value(e.tid as nat)),
        (seq![112u8, 104], JsonValue::Str(seq![88u8])),
    ]
}

/// The members of the object of one end of an async span, at `ts`, with
/// phase `ph`.
pub open spec fn async_members(e: SlimEvent, pid: u32, ts: nat, ph: u8) -> Seq<
    (Seq<u8>, JsonValue),
> {
    seq![
        (seq![110u8, 97, 109, 101], JsonValue::Str(escaped(e.name.spec_bytes()))),
        (seq![116u8, 115], micros_value(ts)),
        (seq![112u8, 105, 100], integer_value(pid as nat)),
        (seq![116u8, 105, 100], integer_value(e.tid as nat)),
        (seq![105u8, 100], integer_value(e.from as nat)),
        (seq![112u8, 104], JsonValue::Str(seq![ph])),
        (seq![99u8, 97, 116], JsonValue::Str(seq![97u8, 115, 121, 110, 99])),
    ]
}

proof fn lemma_keys_ok()
    ensures
        string_content(seq![110u8, 97, 109, 101]),
        string_content(seq![116u8, 115]),
        string_content(seq![100u8, 117, 114]),
        string_content(seq![112u8, 105, 100]),
        string_content(seq![116u8, 105, 100]),
        string_content(seq![105u8, 100]),
        string_content(seq![112u8, 104]),
        string_content(seq![99u8, 97, 116]),
        string_content(seq![88u8]),
        string_content(seq![98u8]),
        string_content(seq![101u8]),
        string_content(seq![97u8, 115, 121, 110, 99]),
{
    lemma_short_string(seq![110u8, 97, 109, 101]);
    lemma_short_string(seq![116u8, 115]);
    lemma_short_string(seq![100u8, 117, 114]);
    lemma_short_string(seq![112u8, 105, 100]);
    lemma_short_string(seq![116u8, 105, 100]);
    lemma_short_string(seq![105u8, 100]);
    lemma_short_string(seq![112u8, 104]);
    lemma_short_string(seq![99u8, 97, 116]);
    lemma_short_string(seq![88u8]);
    lemma_short_string(seq![98u8]);
    lemma_short_string(seq![101u8]);
    lemma_short_string(seq![97u8, 115, 121, 110, 99]);
}

proof fn lemma_members_push(ms: Seq<(Seq<u8>, JsonValue)>, m: (Seq<u8>, JsonValue))
    requires
        ms.len() > 0,
    ensures
        seq![123u8] + members_text(ms.push(m)) == (seq![123u8] + members_text(ms)) + seq![44u8]
            + member_text(m),
{
    assert(ms.push(m).drop_last() =~= ms);
    assert(seq![123u8] + members_text(ms.push(m)) =~= (seq![123u8] + members_text(ms)) + seq![
        44u8,
    ] + member_text(m));
}

/// Appending the key token `tok` (a comma, the quoted key `k` and a colon) and
/// a value's text `v` is appending a separator and the member.
proof fn lemma_key_step(c: Seq<u8>, tok: Seq<u8>, k: Seq<u8>, v: Seq<u8>)
    requires
        tok == seq![44u8, 34u8] + k + seq![34u8, 58u8],
    ensures
        c + tok + v == c + seq![44u8] + (seq![34u8] + k + seq![34u8, 58u8] + v),
{
    assert(c + tok + v =~= c + seq![44u8] + (seq![34u8] + k + seq![34u8, 58u8] + v));
}

/// The phase and category members, then the close of the object, are the
/// tail of an async object.
proof fn lemma_async_tail(c: Seq<u8>, begin: bool)
    ensures
        ({
            let ph: u8 = if begin {
                98
            } else {
                101
            };
            let tail = if begin {
                begin_tail()
            } else {
                end_tail()
            };
            c + seq![44u8] + member_text((seq![112u8, 104], JsonValue::Str(seq![ph]))) + seq![44u8]
                + member_text((seq![99u8, 97, 116], JsonValue::Str(seq![97u8, 115, 121, 110, 99])))
                + seq![125u8] == c + tail
        }),
{
    let ph: u8 = if begin {
        98
    } else {
        101
    };
    let tail = if begin {
        begin_tail()
    } else {
        end_tail()
    };
    let m5 = member_text((seq![112u8, 104], JsonValue::Str(seq![ph])));
    let m6 = member_text((seq![99u8, 97, 116], JsonValue::Str(seq![97u8, 115, 121, 110, 99])));
    assert(m5 =~= seq![34u8, 112, 104, 34, 58, 34, ph, 34]);
    assert(m6 =~= seq![34u8, 99, 97, 116, 34, 58, 34, 97, 115, 121, 110, 99, 34]);
    assert(seq![44u8] + m5 + seq![44u8] + m6 + seq![125u8] =~= tail);
    assert(c + seq![44u8] + m5 + seq![44u8] + m6 + seq![125u8] =~= c + (seq![44u8] + m5
        + seq![44u8] + m6 + seq![125u8]));
}

/// The object of a complete span is a JSON object.
#[verifier::rlimit(30)]
pub proof fn lemma_complete_object_json(e: SlimEvent, pid: u32)
    requires
        e.wf(),
    ensures
        members_ok(complete_members(e, pid)),
        complete_object(e, pid) == object_text(complete_members(e, pid)),
{
    let ms = complete_members(e, pid);
    let esc = escaped(e.name.spec_bytes());
    lemma_keys_ok();
    lemma_escaped_content(e.name.spec_bytes());
    lemma_micros_value(e.from as nat);
    lemma_micros_value((e.to - e.from) as nat);
    lemma_integer_value(pid as nat);
    lemma_integer_value(e.tid as nat);
    let c0 = name_key() + esc;
    assert(ms.take(1) =~= seq![ms[0]]);
    let p1 = seq![123u8] + members_text(ms.take(1));
    assert(p1 =~= c0 + seq![34u8]);
    lemma_members_push(ms.take(1), ms[1]);
    assert(ms.take(1).push(ms[1]) =~= ms.take(2));
    let p2 = seq![123u8] + members_text(ms.take(2));
    let c1 = c0 + ts_key() + micros(e.from as nat);
    assert(p2 =~= c1);
    lemma_members_push(ms.take(2), ms[2]);
    assert(ms.take(2).push(ms[2]) =~= ms.take(3));
    let c2 = c1 + dur_key() + micros((e.to - e.from) as nat);
    assert(dur_key() =~= seq![44u8, 34u8] + ms[2].0 + seq![34u8, 58u8]);
    lemma_key_step(c1, dur_key(), ms[2].0, micros((e.to - e.from) as nat));
    let p3 = seq![123u8] + members_text(ms.take(3));
    assert(p3 == c2);
    lemma_members_push(ms.take(3), ms[3]);
    assert(ms.take(3).push(ms[3]) =~= ms.take(4));
    let c3 = c2 + pid_key() + decimal(pid as nat);
    assert(pid_key() =~= seq![44u8, 34u8] + ms[3].0 + seq![34u8, 58u8]);
    lemma_key_step(c2, pid_key(), ms[3].0, decimal(pid as nat));
    let p4 = seq![123u8] + members_text(ms.take(4));
    assert(p4 == c3);
    lemma_members_push(ms.take(4), ms[4]);
    assert(ms.take(4).push(ms[4]) =~= ms.take(5));
    let c4 = c3 + tid_key() + decimal(e.tid as nat);
    assert(tid_key() =~= seq![44u8, 34u8] + ms[4].0 + seq![34u8, 58u8]);
    lemma_key_step(c3, tid_key(), ms[4].0, decimal(e.tid as nat));
    let p5 = seq![123u8] + members_text(ms.take(5));
    assert(p5 == c4);
    lemma_members_push(ms.take(5), ms[5]);
    assert(ms.take(5).push(ms[5]) =~= ms);
    assert(p5 + seq![44u8] + member_text(ms[5]) + seq![125u8] =~= c4 + complete_tail());
    assert(object_text(ms) =~= seq![123u8] + members_text(ms) + seq![125u8]);
    assert(complete_object(e, pid) == c4 + complete_tail());
}

/// The object of either end of an async span is a JSON object.
#[verifier::rlimit(30)]
pub proof fn lemma_async_object_json(e: SlimEvent, pid: u32, ts: nat, begin: bool)
    ensures
        ({
            let ph: u8 = if begin {
                98
            } else {
                101
            };
            let tail = if begin {
                begin_tail()
            } else {
                end_tail()
            };
            members_ok(async_members(e, pid, ts, ph)) && async_object(e, pid, ts, tail)
                == object_text(async_members(e, pid, ts, ph))
        }),
{
    let ph: u8 = if begin {
        98
    } else {
        101
    };
    let tail = if begin {
        begin_tail()
    } else {
        end_tail()
    };
    let ms = async_members(e, pid, ts, ph);
    let esc = escaped(e.name.spec_bytes());
    lemma_keys_ok();
    lemma_escaped_content(e.name.spec_bytes());
    lemma_micros_value(ts);
    lemma_integer_value(pid as nat);
    lemma_integer_value(e.tid as nat);
    lemma_integer_value(e.from as nat);
    let c0 = name_key() + esc;
    assert(ms.take(1) =~= seq![ms[0]]);
    let p1 = seq![123u8] + members_text(ms.take(1));
    assert(p1 =~= c0 + seq![34u8]);
    lemma_members_push(ms.take(1), ms[1]);
    assert(ms.take(1).push(ms[1]) =~= ms.take(2));
    let p2 = seq![123u8] + members_text(ms.take(2));
    let c1 = c0 + ts_key() + micros(ts);
    assert(p2 =~= c1);
    lemma_members_push(ms.take(2), ms[2]);
    assert(ms.take(2).push(ms[2]) =~= ms.take(3));
    let c2 = c1 + pid_key() + decimal(pid as nat);
    assert(pid_key() =~= seq![44u8, 34u8] + ms[2].0 + seq![34u8, 58u8]);
    lemma_key_step(c1, pid_key(), ms[2].0, decimal(pid as nat));
    let p3 = seq![123u8] + members_text(ms.take(3));
    assert(p3 == c2);
    lemma_members_push(ms.take(3), ms[3]);
    assert(ms.take(3).push(ms[3]) =~= ms.take(4));
    let c3 = c2 + tid_key() + decimal(e.tid as nat);
    assert(tid_key() =~= seq![44u8, 34u8] + ms[3].0 + seq![34u8, 58u8]);
    lemma_key_step(c2, tid_key(), ms[3].0, decimal(e.tid as nat));
    let p4 = seq![123u8] + members_text(ms.take(4));
    assert(p4 == c3);
    lemma_members_push(ms.take(4), ms[4]);
    assert(ms.take(4).push(ms[4]) =~= ms.take(5));
    let c4 = c3 + id_key() + decimal(e.from as nat);
    assert(id_key() =~= seq![44u8, 34u8] + ms[4].0 + seq![34u8, 58u8]);
    lemma_key_step(c3, id_key(), ms[4].0, decimal(e.from as nat));
    let p5 = seq![123u8] + members_text(ms.take(5));
    assert(p5 == c4);
    lemma_members_push(ms.take(5), ms[5]);
    assert(ms.take(5).push(ms[5]) =~= ms.take(6));
    let p6 = seq![123u8] + members_text(ms.take(6));
    lemma_members_push(ms.take(6), ms[6]);
    assert(ms.take(6).push(ms[6]) =~= ms);
    assert(p6 == c4 + seq![44u8] + member_text(ms[5]));
    lemma_async_tail(c4, begin);
    assert(p6 + seq![44u8] + member_text(ms[6]) + seq![125u8] == c4 + tail);
    assert(object_text(ms) =~= seq![123u8] + members_text(ms) + seq![125u8]);
    assert(async_object(e, pid, ts, tail) == c4 + tail);
}

/// Every object of an event is a JSON object.
pub proof fn lemma_objects_json(e: SlimEvent, pid: u32)
    requires
        e.wf(),
    ensures
        forall|k: int|
            0 <= k < objects(e, pid).len() ==> is_json_object(#[trigger] objects(e, pid)[k]),
{
    if e.is_async {
        lemma_async_object_json(e, pid, e.from as nat, true);
        lemma_async_object_json(e, pid, e.to as nat, false);
        assert(is_json_object(objects(e, pid)[0]));
        assert(is_json_object(objects(e, pid)[1]));
    } else {
        lemma_complete_object_json(e, pid);
        assert(is_json_object(objects(e, pid)[0]));
    }
}

} // verus!
