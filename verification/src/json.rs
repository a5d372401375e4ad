//! The persistence format, as mathematics: a pretty-printed JSON array of
//! task objects, an emitter written as spec functions over character
//! sequences, a permissive recursive-descent parser written the same way,
//! and the proof that the parser inverts the emitter.

use vstd::prelude::*;

use crate::task::{Status, TaskView};

verus! {

// --- Shared literals. ---

/// The characters of the `title` key.
pub open spec fn lit_title() -> Seq<char> {
    seq!['t', 'i', 't', 'l', 'e']
}

/// The characters of the `description` key.
pub open spec fn lit_description() -> Seq<char> {
    seq!['d', 'e', 's', 'c', 'r', 'i', 'p', 't', 'i', 'o', 'n']
}

/// The characters of the `status` key.
pub open spec fn lit_status() -> Seq<char> {
    seq!['s', 't', 'a', 't', 'u', 's']
}

/// The characters of the Todo lane's name.
pub open spec fn lit_todo() -> Seq<char> {
    seq!['T', 'o', 'd', 'o']
}

/// The characters of the Doing lane's name.
pub open spec fn lit_doing() -> Seq<char> {
    seq!['D', 'o', 'i', 'n', 'g']
}

/// The characters of the Done lane's name.
pub open spec fn lit_done() -> Seq<char> {
    seq!['D', 'o', 'n', 'e']
}

/// The serialized name of a lane.
pub open spec fn status_name(st: Status) -> Seq<char> {
    match st {
        Status::Todo => lit_todo(),
        Status::Doing => lit_doing(),
        Status::Done => lit_done(),
    }
}

/// The lane named by a string, if any.
pub open spec fn status_from_chars(n: Seq<char>) -> Option<Status> {
    if n == lit_todo() {
        Some(Status::Todo)
    } else if n == lit_doing() {
        Some(Status::Doing)
    } else if n == lit_done() {
        Some(Status::Done)
    } else {
        None
    }
}

// --- The emitter. ---

/// A hexadecimal digit, lower case.
pub open spec fn hex_char(n: int) -> char {
    if n == 0 {
        '0'
    } else if n == 1 {
        '1'
    } else if n == 2 {
        '2'
    } else if n == 3 {
        '3'
    } else if n == 4 {
        '4'
    } else if n == 5 {
        '5'
    } else if n == 6 {
        '6'
    } else if n == 7 {
        '7'
    } else if n == 8 {
        '8'
    } else if n == 9 {
        '9'
    } else if n == 10 {
        'a'
    } else if n == 11 {
        'b'
    } else if n == 12 {
        'c'
    } else if n == 13 {
        'd'
    } else if n == 14 {
        'e'
    } else {
        'f'
    }
}

/// How one character is written inside a JSON string: quotes and
/// backslashes are escaped, newline, carriage return and tab take their
/// short escapes, every other control character a `\u00..` escape, and all
/// remaining characters stand as themselves.
pub open spec fn esc_char(c: char) -> Seq<char> {
    if c == '"' {
        seq!['\\', '"']
    } else if c == '\\' {
        seq!['\\', '\\']
    } else if c == '\n' {
        seq!['\\', 'n']
    } else if c == '\r' {
        seq!['\\', 'r']
    } else if c == '\t' {
        seq!['\\', 't']
    } else if (c as u32) < 0x20 {
        seq!['\\', 'u', '0', '0', hex_char((c as u32) as int / 16), hex_char((c as u32) as int % 16)]
    } else {
        seq![c]
    }
}

/// A whole string, escaped character for character.
pub open spec fn escape(s: Seq<char>) -> Seq<char>
    decreases s.len(),
{
    if s.len() == 0 {
        Seq::empty()
    } else {
        esc_char(s[0]) + escape(s.drop_first())
    }
}

/// A quoted, escaped JSON string.
pub open spec fn ser_string(s: Seq<char>) -> Seq<char> {
    seq!['"'] + escape(s) + seq!['"']
}

/// Two spaces: the indentation of an object line.
pub open spec fn ind2() -> Seq<char> {
    seq![' ', ' ']
}

/// Four spaces: the indentation of a member line.
pub open spec fn ind4() -> Seq<char> {
    seq![' ', ' ', ' ', ' ']
}

/// One serialized task object, pretty-printed over five lines.
pub open spec fn ser_task(t: TaskView) -> Seq<char> {
    ind2() + seq!['{', '\n'] + ind4() + ser_string(lit_title()) + seq![':', ' '] + ser_string(
        t.title,
    ) + seq![',', '\n'] + ind4() + ser_string(lit_description()) + seq![':', ' '] + ser_string(
        t.description,
    ) + seq![',', '\n'] + ind4() + ser_string(lit_status()) + seq![':', ' '] + ser_string(
        status_name(t.status),
    ) + seq!['\n'] + ind2() + seq!['}']
}

/// The serialized task objects, separated by commas, one object per five
/// lines. Meaningful for a non-empty sequence.
pub open spec fn ser_items(tvs: Seq<TaskView>) -> Seq<char>
    decreases tvs.len(),
{
    if tvs.len() <= 1 {
        ser_task(tvs[0])
    } else {
        ser_task(tvs[0]) + seq![',', '\n'] + ser_items(tvs.drop_first())
    }
}

/// The whole persisted document: a pretty-printed JSON array of the tasks,
/// `[]` when there are none.
pub open spec fn ser_tasks(tvs: Seq<TaskView>) -> Seq<char> {
    if tvs.len() == 0 {
        seq!['[', ']']
    } else {
        seq!['[', '\n'] + ser_items(tvs) + seq!['\n', ']']
    }
}

// --- The parser. ---

/// JSON insignificant whitespace.
pub open spec fn is_json_ws(c: char) -> bool {
    c == ' ' || c == '\t' || c == '\n' || c == '\r'
}

/// The suffix left after skipping insignificant whitespace.
pub open spec fn spec_skip_ws(s: Seq<char>) -> Seq<char>
    decreases s.len(),
{
    if s.len() > 0 && is_json_ws(s[0]) {
        spec_skip_ws(s.drop_first())
    } else {
        s
    }
}

/// The value of a hexadecimal digit, either case; -1 for any other
/// character.
pub open spec fn hex_val(c: char) -> int {
    if c == '0' {
        0
    } else if c == '1' {
        1
    } else if c == '2' {
        2
    } else if c == '3' {
        3
    } else if c == '4' {
        4
    } else if c == '5' {
        5
    } else if c == '6' {
        6
    } else if c == '7' {
        7
    } else if c == '8' {
        8
    } else if c == '9' {
        9
    } else if c == 'a' || c == 'A' {
        10
    } else if c == 'b' || c == 'B' {
        11
    } else if c == 'c' || c == 'C' {
        12
    } else if c == 'd' || c == 'D' {
        13
    } else if c == 'e' || c == 'E' {
        14
    } else if c == 'f' || c == 'F' {
        15
    } else {
        -1
    }
}

/// What a short escape stands for; `None` for an unknown escape.
pub open spec fn unescape_char(e: char) -> Option<char> {
    if e == '"' {
        Some('"')
    } else if e == '\\' {
        Some('\\')
    } else if e == '/' {
        Some('/')
    } else if e == 'n' {
        Some('\n')
    } else if e == 't' {
        Some('\t')
    } else if e == 'r' {
        Some('\r')
    } else if e == 'b' {
        Some('\u{8}')
    } else if e == 'f' {
        Some('\u{c}')
    } else {
        None
    }
}

/// The body of a JSON string, read after its opening quote: the decoded
/// characters and the suffix after the closing quote. Short escapes,
/// `\u`-escapes of non-surrogate code points, and raw characters are
/// accepted; anything else fails.
pub open spec fn spec_parse_string_body(s: Seq<char>) -> Option<(Seq<char>, Seq<char>)>
    decreases s.len(),
{
    if s.len() == 0 {
        None
    } else if s[0] == '"' {
        Some((Seq::empty(), s.drop_first()))
    } else if s[0] == '\\' {
        if s.len() < 2 {
            None
        } else if s[1] == 'u' {
            if s.len() < 6 {
                None
            } else {
                let code = hex_val(s[2]) * 4096 + hex_val(s[3]) * 256 + hex_val(s[4]) * 16
                    + hex_val(s[5]);
                if hex_val(s[2]) < 0 || hex_val(s[3]) < 0 || hex_val(s[4]) < 0 || hex_val(s[5]) < 0
                    || (0xD800 <= code <= 0xDFFF) {
                    None
                } else {
                    match spec_parse_string_body(s.skip(6)) {
                        Some((t, r)) => Some((seq![((code as u32) as char)] + t, r)),
                        None => None,
                    }
                }
            }
        } else {
            match unescape_char(s[1]) {
                Some(c) => match spec_parse_string_body(s.skip(2)) {
                    Some((t, r)) => Some((seq![c] + t, r)),
                    None => None,
                },
                None => None,
            }
        }
    } else {
        match spec_parse_string_body(s.drop_first()) {
            Some((t, r)) => Some((seq![s[0]] + t, r)),
            None => None,
        }
    }
}

/// One `"key": "value"` member, with surrounding whitespace: the key and
/// value strings and the suffix after the value.
pub open spec fn spec_parse_member(s: Seq<char>) -> Option<((Seq<char>, Seq<char>), Seq<char>)> {
    let s1 = spec_skip_ws(s);
    if s1.len() > 0 && s1[0] == '"' {
        match spec_parse_string_body(s1.drop_first()) {
            Some((key, r1)) => {
                let s2 = spec_skip_ws(r1);
                if s2.len() > 0 && s2[0] == ':' {
                    let s3 = spec_skip_ws(s2.drop_first());
                    if s3.len() > 0 && s3[0] == '"' {
                        match spec_parse_string_body(s3.drop_first()) {
                            Some((val, r2)) => Some(((key, val), r2)),
                            None => None,
                        }
                    } else {
                        None
                    }
                } else {
                    None
                }
            },
            None => None,
        }
    } else {
        None
    }
}

/// The three optional fields of a task object while it is being read.
pub ghost struct TaskFields {
    pub title: Option<Seq<char>>,
    pub description: Option<Seq<char>>,
    pub status: Option<Seq<char>>,
}

/// No field read yet.
pub open spec fn empty_fields() -> TaskFields {
    TaskFields { title: None, description: None, status: None }
}

/// Record one member into the fields; a duplicate or unknown key fails.
pub open spec fn add_field(f: TaskFields, key: Seq<char>, val: Seq<char>) -> Option<TaskFields> {
    if key == lit_title() {
        match f.title {
            None => Some(TaskFields { title: Some(val), ..f }),
            Some(_) => None,
        }
    } else if key == lit_description() {
        match f.description {
            None => Some(TaskFields { description: Some(val), ..f }),
            Some(_) => None,
        }
    } else if key == lit_status() {
        match f.status {
            None => Some(TaskFields { status: Some(val), ..f }),
            Some(_) => None,
        }
    } else {
        None
    }
}

/// The members of a task object, read until its closing brace: the
/// collected fields and the suffix after the brace.
pub open spec fn spec_parse_members(s: Seq<char>, f: TaskFields) -> Option<(TaskFields, Seq<char>)>
    decreases s.len(),
{
    match spec_parse_member(s) {
        Some(((key, val), r)) => match add_field(f, key, val) {
            Some(f2) => {
                let s2 = spec_skip_ws(r);
                if s2.len() > 0 && s2[0] == ',' {
                    if s2.drop_first().len() < s.len() {
                        spec_parse_members(s2.drop_first(), f2)
                    } else {
                        None
                    }
                } else if s2.len() > 0 && s2[0] == '}' {
                    Some((f2, s2.drop_first()))
                } else {
                    None
                }
            },
            None => None,
        },
        None => None,
    }
}

/// A task from its read fields: the title and a valid status are required,
/// a missing description defaults to the empty string.
pub open spec fn finalize_fields(f: TaskFields) -> Option<TaskView> {
    match f.title {
        Some(t) => match f.status {
            Some(sn) => match status_from_chars(sn) {
                Some(st) => Some(
                    TaskView {
                        title: t,
                        description: match f.description {
                            Some(d) => d,
                            None => Seq::empty(),
                        },
                        status: st,
                    },
                ),
                None => None,
            },
            None => None,
        },
        None => None,
    }
}

/// One task object, with surrounding whitespace: the task and the suffix
/// after its closing brace.
pub open spec fn spec_parse_task(s: Seq<char>) -> Option<(TaskView, Seq<char>)> {
    let s0 = spec_skip_ws(s);
    if s0.len() > 0 && s0[0] == '{' {
        match spec_parse_members(s0.drop_first(), empty_fields()) {
            Some((f, r)) => match finalize_fields(f) {
                Some(t) => Some((t, r)),
                None => None,
            },
            None => None,
        }
    } else {
        None
    }
}

/// The elements of a non-empty array, read until its closing bracket: the
/// tasks and the suffix after the bracket.
pub open spec fn spec_parse_elems(s: Seq<char>) -> Option<(Seq<TaskView>, Seq<char>)>
    decreases s.len(),
{
    match spec_parse_task(s) {
        Some((t, r)) => {
            let s2 = spec_skip_ws(r);
            if s2.len() > 0 && s2[0] == ',' {
                if s2.drop_first().len() < s.len() {
                    match spec_parse_elems(s2.drop_first()) {
                        Some((ts, r2)) => Some((seq![t] + ts, r2)),
                        None => None,
                    }
                } else {
                    None
                }
            } else if s2.len() > 0 && s2[0] == ']' {
                Some((seq![t], s2.drop_first()))
            } else {
                None
            }
        },
        None => None,
    }
}

/// A whole document: one array of task objects and nothing but whitespace
/// after it.
pub open spec fn spec_parse_tasks(s: Seq<char>) -> Option<Seq<TaskView>> {
    let s0 = spec_skip_ws(s);
    if s0.len() > 0 && s0[0] == '[' {
        let inner = s0.drop_first();
        let s1 = spec_skip_ws(inner);
        if s1.len() > 0 && s1[0] == ']' {
            if spec_skip_ws(s1.drop_first()).len() == 0 {
                Some(Seq::empty())
            } else {
                None
            }
        } else {
            match spec_parse_elems(inner) {
                Some((ts, r)) => if spec_skip_ws(r).len() == 0 {
                    Some(ts)
                } else {
                    None
                },
                None => None,
            }
        }
    } else {
        None
    }
}

/// What loading a document yields: its tasks, or — read permissively — an
/// empty board for anything that does not parse.
pub open spec fn load_result(s: Seq<char>) -> Seq<TaskView> {
    match spec_parse_tasks(s) {
        Some(ts) => ts,
        None => Seq::empty(),
    }
}

// --- The round trip: the parser inverts the emitter. ---

/// Every character of the sequence is insignificant whitespace.
pub open spec fn all_ws(w: Seq<char>) -> bool {
    forall|k: int| 0 <= k < w.len() ==> is_json_ws(w[k])
}

proof fn lemma_skip_ws_prefix(w: Seq<char>, rest: Seq<char>)
    requires
        all_ws(w),
    ensures
        spec_skip_ws(w + rest) == spec_skip_ws(rest),
    decreases w.len(),
{
    if w.len() == 0 {
        assert(w + rest =~= rest);
    } else {
        assert(is_json_ws(w[0]));
        assert((w + rest)[0] == w[0]);
        assert((w + rest).drop_first() =~= w.drop_first() + rest);
        assert(all_ws(w.drop_first()));
        lemma_skip_ws_prefix(w.drop_first(), rest);
    }
}

proof fn lemma_skip_ws_id(s: Seq<char>)
    requires
        s.len() == 0 || !is_json_ws(s[0]),
    ensures
        spec_skip_ws(s) == s,
{
}

proof fn lemma_hex_round(n: int)
    requires
        0 <= n < 16,
    ensures
        hex_val(hex_char(n)) == n,
{
}

proof fn lemma_parse_escaped(t: Seq<char>, rest: Seq<char>)
    ensures
        spec_parse_string_body(escape(t) + seq!['"'] + rest) == Some((t, rest)),
    decreases t.len(),
{
    let s = escape(t) + seq!['"'] + rest;
    if t.len() == 0 {
        assert(escape(t) =~= Seq::<char>::empty());
        assert(s =~= seq!['"'] + rest);
        assert(s[0] == '"');
        assert(s.drop_first() =~= rest);
        assert(t =~= Seq::<char>::empty());
    } else {
        let c = t[0];
        let t2 = t.drop_first();
        lemma_parse_escaped(t2, rest);
        let r2 = escape(t2) + seq!['"'] + rest;
        assert(escape(t) == esc_char(c) + escape(t2));
        assert(s =~= esc_char(c) + r2);
        assert(seq![c] + t2 =~= t);
        if c == '"' || c == '\\' || c == '\n' || c == '\r' || c == '\t' {
            let e = esc_char(c)[1];
            assert(s[0] == '\\');
            assert(s.len() >= 2);
            assert(s[1] == e);
            assert(e != 'u');
            assert(unescape_char(e) == Some(c));
            assert(s.skip(2) =~= r2);
        } else if (c as u32) < 0x20 {
            let u = (c as u32) as int;
            assert(esc_char(c) == seq!['\\', 'u', '0', '0', hex_char(u / 16), hex_char(u % 16)]);
            assert(s[0] == '\\');
            assert(s[1] == 'u');
            assert(s.len() >= 6);
            assert(s[2] == '0');
            assert(s[3] == '0');
            assert(s[4] == hex_char(u / 16));
            assert(s[5] == hex_char(u % 16));
            lemma_hex_round(u / 16);
            lemma_hex_round(u % 16);
            assert(hex_val(s[2]) == 0 && hex_val(s[3]) == 0);
            let code = hex_val(s[2]) * 4096 + hex_val(s[3]) * 256 + hex_val(s[4]) * 16 + hex_val(
                s[5],
            );
            assert(code == u);
            assert(!(0xD800 <= code <= 0xDFFF));
            vstd::utf8::char_u32_cast(c, c as u32);
            assert(((code as u32) as char) == c);
            assert(s.skip(6) =~= r2);
        } else {
            assert(esc_char(c) == seq![c]);
            assert(s[0] == c);
            assert(c != '"' && c != '\\');
            assert(s.drop_first() =~= r2);
        }
    }
}

proof fn lemma_parse_member_ser(w: Seq<char>, key: Seq<char>, val: Seq<char>, rest: Seq<char>)
    requires
        all_ws(w),
    ensures
        spec_parse_member(w + ser_string(key) + seq![':', ' '] + ser_string(val) + rest) == Some(
            ((key, val), rest),
        ),
{
    let s = w + ser_string(key) + seq![':', ' '] + ser_string(val) + rest;
    let x = ser_string(key) + seq![':', ' '] + ser_string(val) + rest;
    assert(s =~= w + x);
    assert(x[0] == '"');
    lemma_skip_ws_prefix(w, x);
    lemma_skip_ws_id(x);
    assert(spec_skip_ws(s) == x);
    let after_key = seq![':', ' '] + ser_string(val) + rest;
    assert(x.drop_first() =~= escape(key) + seq!['"'] + after_key);
    lemma_parse_escaped(key, after_key);
    assert(after_key[0] == ':');
    lemma_skip_ws_id(after_key);
    let after_colon = after_key.drop_first();
    assert(after_colon =~= seq![' '] + (ser_string(val) + rest));
    lemma_skip_ws_prefix(seq![' '], ser_string(val) + rest);
    assert((ser_string(val) + rest)[0] == '"');
    lemma_skip_ws_id(ser_string(val) + rest);
    assert(spec_skip_ws(after_colon) == ser_string(val) + rest);
    assert((ser_string(val) + rest).drop_first() =~= escape(val) + seq!['"'] + rest);
    lemma_parse_escaped(val, rest);
}

proof fn lemma_status_name_round(st: Status)
    ensures
        status_from_chars(status_name(st)) == Some(st),
{
    assert(lit_todo().len() == 4);
    assert(lit_doing().len() == 5);
    assert(lit_done().len() == 4);
    assert(lit_done()[2] != lit_todo()[2]);
    match st {
        Status::Todo => {},
        Status::Doing => {},
        Status::Done => {},
    }
}

#[verifier::rlimit(100)]
proof fn lemma_parse_task_ser(w: Seq<char>, t: TaskView, rest: Seq<char>)
    requires
        all_ws(w),
    ensures
        spec_parse_task(w + ser_task(t) + rest) == Some((t, rest)),
{
    let s = w + ser_task(t) + rest;
    let m1 = ser_string(lit_title()) + seq![':', ' '] + ser_string(t.title);
    let m2 = ser_string(lit_description()) + seq![':', ' '] + ser_string(t.description);
    let m3 = ser_string(lit_status()) + seq![':', ' '] + ser_string(status_name(t.status));
    let inner = seq!['\n'] + ind4() + m1 + seq![',', '\n'] + ind4() + m2 + seq![',', '\n'] + ind4()
        + m3 + seq!['\n'] + ind2() + seq!['}'] + rest;
    assert(all_ws(w + ind2()));
    assert(s =~= (w + ind2()) + (seq!['{'] + inner));
    lemma_skip_ws_prefix(w + ind2(), seq!['{'] + inner);
    assert((seq!['{'] + inner)[0] == '{');
    lemma_skip_ws_id(seq!['{'] + inner);
    assert(spec_skip_ws(s) == seq!['{'] + inner);
    assert((seq!['{'] + inner).drop_first() =~= inner);

    // First member: title.
    let tail1 = seq![',', '\n'] + ind4() + m2 + seq![',', '\n'] + ind4() + m3 + seq!['\n'] + ind2()
        + seq!['}'] + rest;
    assert(all_ws(seq!['\n'] + ind4()));
    assert(inner =~= (seq!['\n'] + ind4()) + ser_string(lit_title()) + seq![':', ' ']
        + ser_string(t.title) + tail1);
    lemma_parse_member_ser(seq!['\n'] + ind4(), lit_title(), t.title, tail1);
    let f0 = empty_fields();
    let f1 = TaskFields { title: Some(t.title), description: None, status: None };
    assert(add_field(f0, lit_title(), t.title) == Some(f1));
    assert(tail1[0] == ',');
    lemma_skip_ws_id(tail1);
    assert(ser_string(lit_title()).len() >= 2);
    assert(ser_string(t.title).len() >= 2);
    assert(tail1.drop_first().len() < inner.len());

    // Second member: description.
    let rec1 = tail1.drop_first();
    let tail2 = seq![',', '\n'] + ind4() + m3 + seq!['\n'] + ind2() + seq!['}'] + rest;
    assert(rec1 =~= (seq!['\n'] + ind4()) + ser_string(lit_description()) + seq![':', ' ']
        + ser_string(t.description) + tail2);
    lemma_parse_member_ser(seq!['\n'] + ind4(), lit_description(), t.description, tail2);
    assert(lit_description().len() == 11);
    assert(lit_title().len() == 5);
    let f2 = TaskFields { title: Some(t.title), description: Some(t.description), status: None };
    assert(add_field(f1, lit_description(), t.description) == Some(f2));
    assert(tail2[0] == ',');
    lemma_skip_ws_id(tail2);
    assert(ser_string(lit_description()).len() >= 2);
    assert(ser_string(t.description).len() >= 2);
    assert(tail2.drop_first().len() < rec1.len());

    // Third member: status.
    let rec2 = tail2.drop_first();
    let tail3 = seq!['\n'] + ind2() + seq!['}'] + rest;
    assert(rec2 =~= (seq!['\n'] + ind4()) + ser_string(lit_status()) + seq![':', ' '] + ser_string(
        status_name(t.status),
    ) + tail3);
    lemma_parse_member_ser(seq!['\n'] + ind4(), lit_status(), status_name(t.status), tail3);
    assert(lit_status().len() == 6);
    let f3 = TaskFields {
        title: Some(t.title),
        description: Some(t.description),
        status: Some(status_name(t.status)),
    };
    assert(add_field(f2, lit_status(), status_name(t.status)) == Some(f3));
    assert(all_ws(seq!['\n'] + ind2()));
    assert(tail3 =~= (seq!['\n'] + ind2()) + (seq!['}'] + rest));
    lemma_skip_ws_prefix(seq!['\n'] + ind2(), seq!['}'] + rest);
    assert((seq!['}'] + rest)[0] == '}');
    lemma_skip_ws_id(seq!['}'] + rest);
    assert(spec_skip_ws(tail3) == seq!['}'] + rest);
    assert((seq!['}'] + rest).drop_first() =~= rest);
    assert(spec_parse_members(rec2, f2) == Some((f3, rest)));
    assert(spec_parse_members(rec1, f1) == Some((f3, rest)));
    assert(spec_parse_members(inner, f0) == Some((f3, rest)));

    lemma_status_name_round(t.status);
    assert(finalize_fields(f3) == Some(
        TaskView { title: t.title, description: t.description, status: t.status },
    ));
    assert(TaskView { title: t.title, description: t.description, status: t.status } == t);
}

proof fn lemma_parse_elems_ser(w: Seq<char>, tvs: Seq<TaskView>, rest: Seq<char>)
    requires
        all_ws(w),
        tvs.len() >= 1,
    ensures
        spec_parse_elems(w + ser_items(tvs) + seq!['\n', ']'] + rest) == Some((tvs, rest)),
    decreases tvs.len(),
{
    let s = w + ser_items(tvs) + seq!['\n', ']'] + rest;
    if tvs.len() == 1 {
        let tail = seq!['\n', ']'] + rest;
        assert(s =~= w + ser_task(tvs[0]) + tail);
        lemma_parse_task_ser(w, tvs[0], tail);
        assert(all_ws(seq!['\n']));
        assert(tail =~= seq!['\n'] + (seq![']'] + rest));
        lemma_skip_ws_prefix(seq!['\n'], seq![']'] + rest);
        assert((seq![']'] + rest)[0] == ']');
        lemma_skip_ws_id(seq![']'] + rest);
        assert(spec_skip_ws(tail) == seq![']'] + rest);
        assert((seq![']'] + rest).drop_first() =~= rest);
        assert(seq![tvs[0]] =~= tvs);
    } else {
        let tail = seq![',', '\n'] + ser_items(tvs.drop_first()) + seq!['\n', ']'] + rest;
        assert(s =~= w + ser_task(tvs[0]) + tail);
        lemma_parse_task_ser(w, tvs[0], tail);
        assert(tail[0] == ',');
        lemma_skip_ws_id(tail);
        assert(ser_task(tvs[0]).len() >= 2);
        assert(tail.drop_first().len() < s.len());
        assert(tail.drop_first() =~= seq!['\n'] + ser_items(tvs.drop_first()) + seq!['\n', ']']
            + rest);
        assert(all_ws(seq!['\n']));
        lemma_parse_elems_ser(seq!['\n'], tvs.drop_first(), rest);
        assert(seq![tvs[0]] + tvs.drop_first() =~= tvs);
    }
}

/// The parser reads back exactly what the emitter wrote: every task list,
/// titles, multi-line descriptions, non-ASCII text and all, survives the
/// trip through its serialized document unchanged.
#[verifier::rlimit(100)]
pub proof fn lemma_parse_ser_tasks(tvs: Seq<TaskView>)
    ensures
        spec_parse_tasks(ser_tasks(tvs)) == Some(tvs),
{
    let s = ser_tasks(tvs);
    if tvs.len() == 0 {
        assert(s == seq!['[', ']']);
        assert(s[0] == '[');
        lemma_skip_ws_id(s);
        assert(s.drop_first() =~= seq![']']);
        lemma_skip_ws_id(seq![']']);
        assert(seq![']'][0] == ']');
        assert(seq![']'].drop_first() =~= Seq::<char>::empty());
        lemma_skip_ws_id(Seq::<char>::empty());
        assert(spec_parse_tasks(s) == Some(Seq::<TaskView>::empty()));
        assert(tvs =~= Seq::<TaskView>::empty());
    } else {
        let inner = seq!['\n'] + ser_items(tvs) + seq!['\n', ']'];
        assert(s =~= seq!['['] + inner);
        assert(s[0] == '[');
        lemma_skip_ws_id(s);
        assert(s.drop_first() =~= inner);
        // The inner text, after whitespace, begins with the first object's
        // brace, not with a closing bracket.
        assert(ser_items(tvs)[0] == ser_task(tvs[0])[0]);
        assert(ser_task(tvs[0])[0] == ' ');
        assert(inner =~= (seq!['\n'] + ind2()) + (seq!['{']
            + inner.skip(4)));
        assert(all_ws(seq!['\n'] + ind2()));
        lemma_skip_ws_prefix(seq!['\n'] + ind2(), seq!['{'] + inner.skip(4));
        assert((seq!['{'] + inner.skip(4))[0] == '{');
        lemma_skip_ws_id(seq!['{'] + inner.skip(4));
        assert(spec_skip_ws(inner) == seq!['{'] + inner.skip(4));
        assert(spec_skip_ws(inner)[0] != ']');
        assert(inner =~= seq!['\n'] + ser_items(tvs) + seq!['\n', ']'] + Seq::<char>::empty());
        lemma_parse_elems_ser(seq!['\n'], tvs, Seq::<char>::empty());
        lemma_skip_ws_id(Seq::<char>::empty());
    }
}

/// Loading what was saved restores the board exactly.
pub proof fn lemma_save_load_round_trip(tvs: Seq<TaskView>)
    ensures
        load_result(ser_tasks(tvs)) == tvs,
{
    lemma_parse_ser_tasks(tvs);
}

} // verus!
