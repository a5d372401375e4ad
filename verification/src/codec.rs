//! The executable persistence code: serializing a board to its JSON
//! document and reading one back, each proved against the spec-level
//! format in [`crate::json`].

use vstd::prelude::*;
use vstd::slice::{slice_index_get, slice_subrange};
use vstd::string::StrSliceExecFns;

use crate::json::{
    add_field, empty_fields, esc_char, escape, finalize_fields, hex_char, hex_val, is_json_ws,
    lit_description, lit_doing, lit_done, lit_status, lit_title, lit_todo, load_result, ser_items,
    ser_string, ser_task, ser_tasks, spec_parse_elems, spec_parse_member, spec_parse_members,
    spec_parse_string_body, spec_parse_task, spec_parse_tasks, spec_skip_ws, status_from_chars,
    unescape_char, TaskFields,
};
use crate::strings::{chars_to_string, string_to_chars};
use crate::task::{tviews, Status, Task, TaskView};

verus! {

/// Relies on `char::from_u32`: it returns the character of the given code
/// point exactly when that code is a Unicode scalar value (at most 0x10FFFF
/// and not a surrogate), and `None` otherwise.
pub assume_specification [ char::from_u32 ](v: u32) -> (r: Option<char>)
    ensures
        match r {
            Some(c) => c as u32 == v,
            None => !vstd::utf8::is_scalar(v),
        },
        vstd::utf8::is_scalar(v) ==> r is Some,
;

// --- Small executable forms of the spec's character tables. ---

fn is_json_ws_exec(c: char) -> (r: bool)
    ensures
        r == is_json_ws(c),
{
    c == ' ' || c == '\t' || c == '\n' || c == '\r'
}

fn hex_val_exec(c: char) -> (r: i32)
    ensures
        r as int == hex_val(c),
{
    if c == '0' {
        0
    } else if c == '1' {
        1
    } else if c == '2' {
        2
    } else if c == '3' {
        3
    } else if c == '4' {
        4
    } else if c == '5' {
        5
    } else if c == '6' {
        6
    } else if c == '7' {
        7
    } else if c == '8' {
        8
    } else if c == '9' {
        9
    } else if c == 'a' || c == 'A' {
        10
    } else if c == 'b' || c == 'B' {
        11
    } else if c == 'c' || c == 'C' {
        12
    } else if c == 'd' || c == 'D' {
        13
    } else if c == 'e' || c == 'E' {
        14
    } else if c == 'f' || c == 'F' {
        15
    } else {
        -1
    }
}

fn unescape_char_exec(e: char) -> (r: Option<char>)
    ensures
        r == unescape_char(e),
{
    if e == '"' {
        Some('"')
    } else if e == '\\' {
        Some('\\')
    } else if e == '/' {
        Some('/')
    } else if e == 'n' {
        Some('\n')
    } else if e == 't' {
        Some('\t')
    } else if e == 'r' {
        Some('\r')
    } else if e == 'b' {
        Some('\u{8}')
    } else if e == 'f' {
        Some('\u{c}')
    } else {
        None
    }
}

fn hex_digit(n: u32) -> (r: char)
    requires
        n < 16,
    ensures
        r == hex_char(n as int),
{
    if n == 0 {
        '0'
    } else if n == 1 {
        '1'
    } else if n == 2 {
        '2'
    } else if n == 3 {
        '3'
    } else if n == 4 {
        '4'
    } else if n == 5 {
        '5'
    } else if n == 6 {
        '6'
    } else if n == 7 {
        '7'
    } else if n == 8 {
        '8'
    } else if n == 9 {
        '9'
    } else if n == 10 {
        'a'
    } else if n == 11 {
        'b'
    } else if n == 12 {
        'c'
    } else if n == 13 {
        'd'
    } else if n == 14 {
        'e'
    } else {
        'f'
    }
}

/// Whether the characters of `v` spell exactly the string `s`.
fn chars_eq_str(v: &Vec<char>, s: &str) -> (r: bool)
    ensures
        r == (v@ == s@),
{
    let n = s.unicode_len();
    if v.len() != n {
        proof {
            assert(v@ != s@);
        }
        return false;
    }
    let mut i: usize = 0;
    while i < n
        invariant
            i <= n,
            n == s@.len(),
            v@.len() == n,
            forall|k: int| 0 <= k < i ==> v@[k] == s@[k],
        decreases n - i,
    {
        if v[i] != s.get_char(i) {
            proof {
                assert(v@ != s@);
            }
            return false;
        }
        i += 1;
    }
    proof {
        assert(v@ =~= s@);
    }
    true
}

// --- The parser. ---

proof fn lemma_skip_ws_at(s: Seq<char>, i: int)
    requires
        0 <= i <= s.len(),
        forall|k: int| 0 <= k < i ==> is_json_ws(s[k]),
        i == s.len() || !is_json_ws(s[i]),
    ensures
        spec_skip_ws(s) == s.skip(i),
    decreases i,
{
    if i == 0 {
        assert(s.skip(0) =~= s);
    } else {
        assert(is_json_ws(s[0]));
        lemma_skip_ws_at(s.drop_first(), i - 1);
        assert(s.drop_first().skip(i - 1) =~= s.skip(i));
    }
}

fn skip_ws_exec<'a>(s: &'a [char]) -> (r: &'a [char])
    ensures
        r@ == spec_skip_ws(s@),
{
    let mut i: usize = 0;
    while i < s.len() && is_json_ws_exec(s[i])
        invariant
            i <= s@.len(),
            forall|k: int| 0 <= k < i ==> is_json_ws(s@[k]),
        decreases s@.len() - i,
    {
        i += 1;
    }
    proof {
        lemma_skip_ws_at(s@, i as int);
    }
    let r = slice_subrange(s, i, s.len());
    proof {
        assert(r@ =~= s@.skip(i as int));
    }
    r
}

/// The body of a JSON string, decoded after its opening quote.
fn parse_string_body_exec<'a>(s: &'a [char]) -> (r: Option<(Vec<char>, &'a [char])>)
    ensures
        match r {
            Some((t, rest)) => spec_parse_string_body(s@) == Some((t@, rest@)),
            None => spec_parse_string_body(s@) is None,
        },
{
    let mut acc: Vec<char> = Vec::new();
    let mut i: usize = 0;
    proof {
        assert(s@.skip(0) =~= s@);
    }
    while i < s.len()
        invariant
            i <= s@.len(),
            match spec_parse_string_body(s@.skip(i as int)) {
                Some((t, rest)) => spec_parse_string_body(s@) == Some((acc@ + t, rest)),
                None => spec_parse_string_body(s@) is None,
            },
        decreases s@.len() - i,
    {
        let ghost cur = s@.skip(i as int);
        proof {
            assert(cur[0] == s@[i as int]);
            assert(cur.drop_first() =~= s@.skip(i as int + 1));
        }
        let c = s[i];
        if c == '"' {
            let rest = slice_subrange(s, i + 1, s.len());
            proof {
                assert(rest@ =~= cur.drop_first());
                assert(acc@ + Seq::<char>::empty() =~= acc@);
            }
            return Some((acc, rest));
        } else if c == '\\' {
            if s.len() - i < 2 {
                return None;
            }
            let e = s[i + 1];
            proof {
                assert(cur[1] == s@[i as int + 1]);
            }
            if e == 'u' {
                if s.len() - i < 6 {
                    return None;
                }
                proof {
                    assert(cur[2] == s@[i as int + 2]);
                    assert(cur[3] == s@[i as int + 3]);
                    assert(cur[4] == s@[i as int + 4]);
                    assert(cur[5] == s@[i as int + 5]);
                }
                let h0 = hex_val_exec(s[i + 2]);
                let h1 = hex_val_exec(s[i + 3]);
                let h2 = hex_val_exec(s[i + 4]);
                let h3 = hex_val_exec(s[i + 5]);
                if h0 < 0 || h1 < 0 || h2 < 0 || h3 < 0 {
                    return None;
                }
                let code: u32 = (h0 as u32) * 4096 + (h1 as u32) * 256 + (h2 as u32) * 16 + (
                h3 as u32);
                if 0xD800 <= code && code <= 0xDFFF {
                    return None;
                }
                match char::from_u32(code) {
                    Some(c2) => {
                        proof {
                            vstd::utf8::char_u32_cast(c2, code);
                            assert(cur.skip(6) =~= s@.skip(i as int + 6));
                            match spec_parse_string_body(s@.skip(i as int + 6)) {
                                Some((t, rest)) => {
                                    assert(acc@ + (seq![c2] + t) =~= acc@.push(c2) + t);
                                },
                                None => {},
                            }
                        }
                        acc.push(c2);
                        i += 6;
                    },
                    None => {
                        proof {
                            assert(vstd::utf8::is_scalar(code));
                            assert(false);
                        }
                    },
                }
            } else {
                match unescape_char_exec(e) {
                    Some(c2) => {
                        proof {
                            assert(cur.skip(2) =~= s@.skip(i as int + 2));
                            match spec_parse_string_body(s@.skip(i as int + 2)) {
                                Some((t, rest)) => {
                                    assert(acc@ + (seq![c2] + t) =~= acc@.push(c2) + t);
                                },
                                None => {},
                            }
                        }
                        acc.push(c2);
                        i += 2;
                    },
                    None => {
                        return None;
                    },
                }
            }
        } else {
            proof {
                match spec_parse_string_body(s@.skip(i as int + 1)) {
                    Some((t, rest)) => {
                        assert(acc@ + (seq![c] + t) =~= acc@.push(c) + t);
                    },
                    None => {},
                }
            }
            acc.push(c);
            i += 1;
        }
    }
    proof {
        assert(s@.skip(s@.len() as int) =~= Seq::<char>::empty());
    }
    None
}

/// One `"key": "value"` member with its surrounding whitespace.
fn parse_member_exec<'a>(s: &'a [char]) -> (r: Option<((Vec<char>, Vec<char>), &'a [char])>)
    ensures
        match r {
            Some(((k, v), rest)) => spec_parse_member(s@) == Some(((k@, v@), rest@)),
            None => spec_parse_member(s@) is None,
        },
{
    let s1 = skip_ws_exec(s);
    if s1.len() == 0 || *slice_index_get(s1, 0) != '"' {
        return None;
    }
    let body1 = slice_subrange(s1, 1, s1.len());
    proof {
        assert(body1@ =~= s1@.drop_first());
    }
    match parse_string_body_exec(body1) {
        None => None,
        Some((key, r1)) => {
            let s2 = skip_ws_exec(r1);
            if s2.len() == 0 || *slice_index_get(s2, 0) != ':' {
                return None;
            }
            let after_colon = slice_subrange(s2, 1, s2.len());
            proof {
                assert(after_colon@ =~= s2@.drop_first());
            }
            let s3 = skip_ws_exec(after_colon);
            if s3.len() == 0 || *slice_index_get(s3, 0) != '"' {
                return None;
            }
            let body2 = slice_subrange(s3, 1, s3.len());
            proof {
                assert(body2@ =~= s3@.drop_first());
            }
            match parse_string_body_exec(body2) {
                None => None,
                Some((val, r2)) => Some(((key, val), r2)),
            }
        },
    }
}

/// The three optional fields of a task object while it is being read.
pub struct TaskFieldsX {
    pub title: Option<Vec<char>>,
    pub description: Option<Vec<char>>,
    pub status: Option<Vec<char>>,
}

/// The mathematical content of a [`TaskFieldsX`].
pub open spec fn fields_view(f: TaskFieldsX) -> TaskFields {
    TaskFields {
        title: match f.title {
            Some(v) => Some(v@),
            None => None,
        },
        description: match f.description {
            Some(v) => Some(v@),
            None => None,
        },
        status: match f.status {
            Some(v) => Some(v@),
            None => None,
        },
    }
}

fn add_field_exec(f: TaskFieldsX, key: Vec<char>, val: Vec<char>) -> (r: Option<TaskFieldsX>)
    ensures
        match r {
            Some(f2) => add_field(fields_view(f), key@, val@) == Some(fields_view(f2)),
            None => add_field(fields_view(f), key@, val@) is None,
        },
{
    proof {
        reveal_strlit("title");
        reveal_strlit("description");
        reveal_strlit("status");
        assert("title"@ =~= lit_title());
        assert("description"@ =~= lit_description());
        assert("status"@ =~= lit_status());
    }
    if chars_eq_str(&key, "title") {
        match f.title {
            None => Some(TaskFieldsX { title: Some(val), ..f }),
            Some(_) => None,
        }
    } else if chars_eq_str(&key, "description") {
        match f.description {
            None => Some(TaskFieldsX { description: Some(val), ..f }),
            Some(_) => None,
        }
    } else if chars_eq_str(&key, "status") {
        match f.status {
            None => Some(TaskFieldsX { status: Some(val), ..f }),
            Some(_) => None,
        }
    } else {
        None
    }
}

/// The members of a task object, read until its closing brace.
fn parse_members_exec<'a>(s: &'a [char], f: TaskFieldsX) -> (r: Option<(TaskFieldsX, &'a [char])>)
    ensures
        match r {
            Some((f2, rest)) => spec_parse_members(s@, fields_view(f)) == Some(
                (fields_view(f2), rest@),
            ),
            None => spec_parse_members(s@, fields_view(f)) is None,
        },
    decreases s@.len(),
{
    match parse_member_exec(s) {
        None => None,
        Some(((key, val), r1)) => {
            match add_field_exec(f, key, val) {
                None => None,
                Some(f2) => {
                    let s2 = skip_ws_exec(r1);
                    if s2.len() > 0 && *slice_index_get(s2, 0) == ',' {
                        let nxt = slice_subrange(s2, 1, s2.len());
                        proof {
                            assert(nxt@ =~= s2@.drop_first());
                        }
                        if nxt.len() < s.len() {
                            parse_members_exec(nxt, f2)
                        } else {
                            None
                        }
                    } else if s2.len() > 0 && *slice_index_get(s2, 0) == '}' {
                        let rest = slice_subrange(s2, 1, s2.len());
                        proof {
                            assert(rest@ =~= s2@.drop_first());
                        }
                        Some((f2, rest))
                    } else {
                        None
                    }
                },
            }
        },
    }
}

fn status_from_chars_exec(v: &Vec<char>) -> (r: Option<Status>)
    ensures
        r == status_from_chars(v@),
{
    proof {
        reveal_strlit("Todo");
        reveal_strlit("Doing");
        reveal_strlit("Done");
        assert("Todo"@ =~= lit_todo());
        assert("Doing"@ =~= lit_doing());
        assert("Done"@ =~= lit_done());
    }
    if chars_eq_str(v, "Todo") {
        Some(Status::Todo)
    } else if chars_eq_str(v, "Doing") {
        Some(Status::Doing)
    } else if chars_eq_str(v, "Done") {
        Some(Status::Done)
    } else {
        None
    }
}

fn finalize_exec(f: TaskFieldsX) -> (r: Option<Task>)
    ensures
        match r {
            Some(t) => finalize_fields(fields_view(f)) == Some(t@),
            None => finalize_fields(fields_view(f)) is None,
        },
{
    match f.title {
        None => None,
        Some(tv) => match f.status {
            None => None,
            Some(sv) => match status_from_chars_exec(&sv) {
                None => None,
                Some(st) => {
                    let title = chars_to_string(&tv);
                    let description = match f.description {
                        Some(d) => chars_to_string(&d),
                        None => String::new(),
                    };
                    Some(Task { title, description, status: st })
                },
            },
        },
    }
}

/// One task object with its surrounding whitespace.
fn parse_task_exec<'a>(s: &'a [char]) -> (r: Option<(Task, &'a [char])>)
    ensures
        match r {
            Some((t, rest)) => spec_parse_task(s@) == Some((t@, rest@)),
            None => spec_parse_task(s@) is None,
        },
{
    let s0 = skip_ws_exec(s);
    if s0.len() == 0 || *slice_index_get(s0, 0) != '{' {
        return None;
    }
    let inner = slice_subrange(s0, 1, s0.len());
    proof {
        assert(inner@ =~= s0@.drop_first());
        assert(fields_view(
            TaskFieldsX { title: None, description: None, status: None },
        ) == empty_fields());
    }
    match parse_members_exec(inner, TaskFieldsX { title: None, description: None, status: None }) {
        None => None,
        Some((f, r1)) => match finalize_exec(f) {
            None => None,
            Some(t) => Some((t, r1)),
        },
    }
}

/// The elements of a non-empty array, read until its closing bracket.
fn parse_elems_exec<'a>(s: &'a [char]) -> (r: Option<(Vec<Task>, &'a [char])>)
    ensures
        match r {
            Some((ts, rest)) => spec_parse_elems(s@) == Some((tviews(ts@), rest@)),
            None => spec_parse_elems(s@) is None,
        },
    decreases s@.len(),
{
    match parse_task_exec(s) {
        None => None,
        Some((t, r1)) => {
            let s2 = skip_ws_exec(r1);
            if s2.len() > 0 && *slice_index_get(s2, 0) == ',' {
                let nxt = slice_subrange(s2, 1, s2.len());
                proof {
                    assert(nxt@ =~= s2@.drop_first());
                }
                if nxt.len() < s.len() {
                    match parse_elems_exec(nxt) {
                        None => None,
                        Some((mut ts, r2)) => {
                            let ghost pre = ts@;
                            ts.insert(0, t);
                            proof {
                                assert(tviews(ts@) =~= seq![t@] + tviews(pre));
                            }
                            Some((ts, r2))
                        },
                    }
                } else {
                    None
                }
            } else if s2.len() > 0 && *slice_index_get(s2, 0) == ']' {
                let rest = slice_subrange(s2, 1, s2.len());
                let mut ts: Vec<Task> = Vec::new();
                ts.push(t);
                proof {
                    assert(rest@ =~= s2@.drop_first());
                    assert(tviews(ts@) =~= seq![t@]);
                }
                Some((ts, rest))
            } else {
                None
            }
        },
    }
}

/// A whole document, parsed strictly by the grammar the emitter writes and
/// permissively about whitespace; `None` for anything else.
fn parse_tasks_exec(s: &[char]) -> (r: Option<Vec<Task>>)
    ensures
        match r {
            Some(ts) => spec_parse_tasks(s@) == Some(tviews(ts@)),
            None => spec_parse_tasks(s@) is None,
        },
{
    let s0 = skip_ws_exec(s);
    if s0.len() == 0 || *slice_index_get(s0, 0) != '[' {
        return None;
    }
    let inner = slice_subrange(s0, 1, s0.len());
    proof {
        assert(inner@ =~= s0@.drop_first());
    }
    let s1 = skip_ws_exec(inner);
    if s1.len() > 0 && *slice_index_get(s1, 0) == ']' {
        let tail = slice_subrange(s1, 1, s1.len());
        proof {
            assert(tail@ =~= s1@.drop_first());
        }
        let after = skip_ws_exec(tail);
        if after.len() == 0 {
            let ts: Vec<Task> = Vec::new();
            proof {
                assert(tviews(ts@) =~= Seq::<TaskView>::empty());
            }
            Some(ts)
        } else {
            None
        }
    } else {
        match parse_elems_exec(inner) {
            None => None,
            Some((ts, r1)) => {
                let after = skip_ws_exec(r1);
                if after.len() == 0 {
                    Some(ts)
                } else {
                    None
                }
            },
        }
    }
}

/// Read a persisted board: the document's tasks, or — permissively — an
/// empty board when the text is not a well-formed document.
pub fn load_tasks(s: &str) -> (r: Vec<Task>)
    ensures
        tviews(r@) == load_result(s@),
{
    let chars = string_to_chars(s);
    match parse_tasks_exec(chars.as_slice()) {
        Some(v) => v,
        None => {
            let ts: Vec<Task> = Vec::new();
            proof {
                assert(tviews(ts@) =~= Seq::<TaskView>::empty());
            }
            ts
        },
    }
}

// --- The emitter. ---

proof fn lemma_escape_snoc(t: Seq<char>, c: char)
    ensures
        escape(t.push(c)) == escape(t) + esc_char(c),
    decreases t.len(),
{
    if t.len() == 0 {
        assert(t.push(c) =~= seq![c]);
        assert(seq![c].drop_first() =~= Seq::<char>::empty());
        assert(escape(seq![c]) == esc_char(c) + escape(Seq::<char>::empty()));
        assert(esc_char(c) + Seq::<char>::empty() =~= esc_char(c));
        assert(escape(t) + esc_char(c) =~= esc_char(c));
    } else {
        assert(t.push(c)[0] == t[0]);
        assert(t.push(c).drop_first() =~= t.drop_first().push(c));
        lemma_escape_snoc(t.drop_first(), c);
        assert(esc_char(t[0]) + (escape(t.drop_first()) + esc_char(c)) =~= (esc_char(t[0]) + escape(
            t.drop_first(),
        )) + esc_char(c));
    }
}

/// Append the quoted, escaped form of `s` to `out`.
fn emit_string(s: &str, out: &mut Vec<char>)
    ensures
        final(out)@ == old(out)@ + ser_string(s@),
{
    let ghost o0 = out@;
    out.push('"');
    let n = s.unicode_len();
    let mut i: usize = 0;
    proof {
        assert(escape(s@.take(0)) =~= Seq::<char>::empty());
        assert(out@ =~= o0 + seq!['"'] + escape(s@.take(0)));
    }
    while i < n
        invariant
            i <= n,
            n == s@.len(),
            out@ == o0 + seq!['"'] + escape(s@.take(i as int)),
        decreases n - i,
    {
        let ghost before = out@;
        let c = s.get_char(i);
        if c == '"' {
            out.push('\\');
            out.push('"');
        } else if c == '\\' {
            out.push('\\');
            out.push('\\');
        } else if c == '\n' {
            out.push('\\');
            out.push('n');
        } else if c == '\r' {
            out.push('\\');
            out.push('r');
        } else if c == '\t' {
            out.push('\\');
            out.push('t');
        } else {
            let u = c as u32;
            if u < 0x20 {
                out.push('\\');
                out.push('u');
                out.push('0');
                out.push('0');
                out.push(hex_digit(u / 16));
                out.push(hex_digit(u % 16));
            } else {
                out.push(c);
            }
        }
        proof {
            assert(out@ =~= before + esc_char(c));
            lemma_escape_snoc(s@.take(i as int), c);
            assert(s@.take(i as int).push(c) =~= s@.take(i as int + 1));
            assert(out@ =~= o0 + seq!['"'] + escape(s@.take(i as int + 1)));
        }
        i += 1;
    }
    out.push('"');
    proof {
        assert(s@.take(n as int) =~= s@);
        assert(out@ =~= o0 + ser_string(s@));
    }
}

/// Append one pretty-printed task object to `out`.
#[verifier::rlimit(100)]
fn emit_task(t: &Task, out: &mut Vec<char>)
    ensures
        final(out)@ == old(out)@ + ser_task(t@),
{
    proof {
        reveal_strlit("title");
        reveal_strlit("description");
        reveal_strlit("status");
        reveal_strlit("Todo");
        reveal_strlit("Doing");
        reveal_strlit("Done");
        assert("title"@ =~= lit_title());
        assert("description"@ =~= lit_description());
        assert("status"@ =~= lit_status());
        assert("Todo"@ =~= lit_todo());
        assert("Doing"@ =~= lit_doing());
        assert("Done"@ =~= lit_done());
    }
    let ghost o0 = out@;
    out.push(' ');
    out.push(' ');
    out.push('{');
    out.push('\n');
    out.push(' ');
    out.push(' ');
    out.push(' ');
    out.push(' ');
    emit_string("title", out);
    out.push(':');
    out.push(' ');
    emit_string(t.title.as_str(), out);
    out.push(',');
    out.push('\n');
    out.push(' ');
    out.push(' ');
    out.push(' ');
    out.push(' ');
    emit_string("description", out);
    out.push(':');
    out.push(' ');
    emit_string(t.description.as_str(), out);
    out.push(',');
    out.push('\n');
    out.push(' ');
    out.push(' ');
    out.push(' ');
    out.push(' ');
    emit_string("status", out);
    out.push(':');
    out.push(' ');
    match t.status {
        Status::Todo => emit_string("Todo", out),
        Status::Doing => emit_string("Doing", out),
        Status::Done => emit_string("Done", out),
    }
    out.push('\n');
    out.push(' ');
    out.push(' ');
    out.push('}');
    proof {
        assert(out@ =~= o0 + ser_task(t@));
    }
}

/// Append the serialized objects of a non-empty task slice, separated by
/// commas.
fn emit_items(ts: &[Task], out: &mut Vec<char>)
    requires
        ts@.len() >= 1,
    ensures
        final(out)@ == old(out)@ + ser_items(tviews(ts@)),
    decreases ts@.len(),
{
    emit_task(slice_index_get(ts, 0), out);
    if ts.len() > 1 {
        out.push(',');
        out.push('\n');
        let rest = slice_subrange(ts, 1, ts.len());
        proof {
            assert(rest@ =~= ts@.drop_first());
            assert(tviews(ts@).drop_first() =~= tviews(ts@.drop_first()));
        }
        emit_items(rest, out);
        proof {
            assert(tviews(ts@)[0] == ts@[0]@);
            assert(old(out)@ + (ser_task(ts@[0]@) + seq![',', '\n'] + ser_items(
                tviews(ts@.drop_first()),
            )) =~= old(out)@ + ser_task(ts@[0]@) + seq![',', '\n'] + ser_items(
                tviews(ts@.drop_first()),
            ));
        }
    } else {
        proof {
            assert(tviews(ts@)[0] == ts@[0]@);
        }
    }
}

/// Write a board as its persisted document: a pretty-printed JSON array of
/// its tasks, in backing order, `[]` for an empty board.
pub fn save_tasks(tasks: &Vec<Task>) -> (r: String)
    ensures
        r@ == ser_tasks(tviews(tasks@)),
{
    let mut out: Vec<char> = Vec::new();
    out.push('[');
    if tasks.len() == 0 {
        out.push(']');
        proof {
            assert(out@ =~= ser_tasks(tviews(tasks@)));
        }
    } else {
        out.push('\n');
        emit_items(tasks.as_slice(), &mut out);
        out.push('\n');
        out.push(']');
        proof {
            assert(out@ =~= ser_tasks(tviews(tasks@)));
        }
    }
    chars_to_string(&out)
}

} // verus!