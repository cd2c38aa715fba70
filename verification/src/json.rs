//! JSON rendering of the wire bodies.
//!
//! Every response body of the service is one of four JSON shapes: a task
//! object, an array of task objects, an update echo, or a message object.
//! The functions here produce exactly those bytes; their specifications
//! pin down every character, including the escaping of the free-form text.

use vstd::prelude::*;

use crate::models::{Msg, Task, TaskView, UpdateTask};
use crate::text::{digit_char, spec_int_str, i64_to_string};

verus! {

/// The character for one hexadecimal digit value.
pub open spec fn hex_char(d: nat) -> char {
    if d < 10 {
        digit_char(d)
    } else if d == 10 {
        'a'
    } else if d == 11 {
        'b'
    } else if d == 12 {
        'c'
    } else if d == 13 {
        'd'
    } else if d == 14 {
        'e'
    } else {
        'f'
    }
}

/// How one character appears inside a JSON string: quote and backslash get
/// a backslash escape, the named control characters their short escapes,
/// every other control character a four-digit unicode escape, and all else
/// passes through unchanged.
pub open spec fn json_escape_char(c: char) -> Seq<char> {
    if c == '"' {
        seq!['\\', '"']
    } else if c == '\\' {
        seq!['\\', '\\']
    } else if c == '\u{8}' {
        seq!['\\', 'b']
    } else if c == '\u{c}' {
        seq!['\\', 'f']
    } else if c == '\n' {
        seq!['\\', 'n']
    } else if c == '\r' {
        seq!['\\', 'r']
    } else if c == '\t' {
        seq!['\\', 't']
    } else if (c as u32) < 0x20 {
        seq!['\\', 'u', '0', '0', hex_char((c as u32 / 16) as nat), hex_char((c as u32 % 16) as nat)]
    } else {
        seq![c]
    }
}

/// A whole text as it appears inside a JSON string.
pub open spec fn json_escaped(s: Seq<char>) -> Seq<char>
    decreases s.len(),
{
    if s.len() == 0 {
        Seq::<char>::empty()
    } else {
        json_escaped(s.drop_last()) + json_escape_char(s.last())
    }
}

/// A JSON string: the escaped text between double quotes.
pub open spec fn spec_json_string(s: Seq<char>) -> Seq<char> {
    seq!['"'] + json_escaped(s) + seq!['"']
}

/// The JSON object for one task row.
pub open spec fn spec_task_json(t: TaskView) -> Seq<char> {
    "{\"id\":"@ + spec_int_str(t.id) + ",\"task\":"@ + spec_json_string(t.task) + "}"@
}

/// The members of the JSON array for a sequence of rows, comma-separated.
pub open spec fn spec_tasks_json_members(rows: Seq<TaskView>) -> Seq<char>
    decreases rows.len(),
{
    if rows.len() == 0 {
        Seq::<char>::empty()
    } else if rows.len() == 1 {
        spec_task_json(rows[0])
    } else {
        spec_tasks_json_members(rows.drop_last()) + seq![','] + spec_task_json(rows.last())
    }
}

/// The JSON array for a sequence of rows.
pub open spec fn spec_tasks_json(rows: Seq<TaskView>) -> Seq<char> {
    seq!['['] + spec_tasks_json_members(rows) + seq![']']
}

/// The JSON object echoing an update payload.
pub open spec fn spec_update_task_json(text: Seq<char>) -> Seq<char> {
    "{\"task\":"@ + spec_json_string(text) + "}"@
}

/// The JSON object for a message body.
pub open spec fn spec_msg_json(text: Seq<char>) -> Seq<char> {
    "{\"msg\":"@ + spec_json_string(text) + "}"@
}

/// The one-character string for one hexadecimal digit value.
fn hex_str(d: u32) -> (r: &'static str)
    requires
        d < 16,
    ensures
        r@ == seq![hex_char(d as nat)],
{
    proof {
        reveal_strlit("0");
        reveal_strlit("1");
        reveal_strlit("2");
        reveal_strlit("3");
        reveal_strlit("4");
        reveal_strlit("5");
        reveal_strlit("6");
        reveal_strlit("7");
        reveal_strlit("8");
        reveal_strlit("9");
        reveal_strlit("a");
        reveal_strlit("b");
        reveal_strlit("c");
        reveal_strlit("d");
        reveal_strlit("e");
        reveal_strlit("f");
    }
    let r = match d {
        0 => "0",
        1 => "1",
        2 => "2",
        3 => "3",
        4 => "4",
        5 => "5",
        6 => "6",
        7 => "7",
        8 => "8",
        9 => "9",
        10 => "a",
        11 => "b",
        12 => "c",
        13 => "d",
        14 => "e",
        _ => "f",
    };
    proof {
        assert(r@ =~= seq![hex_char(d as nat)]);
    }
    r
}

/// Append the JSON-escaped form of the character at one position of a
/// text.
fn append_escaped_at(out: &mut String, s: &str, i: usize)
    requires
        i < s@.len() <= usize::MAX,
    ensures
        final(out)@ == old(out)@ + json_escape_char(s@[i as int]),
{
    let c = s.get_char(i);
    proof {
        reveal_strlit("\\\"");
        reveal_strlit("\\\\");
        reveal_strlit("\\b");
        reveal_strlit("\\f");
        reveal_strlit("\\n");
        reveal_strlit("\\r");
        reveal_strlit("\\t");
        reveal_strlit("\\u00");
    }
    if c == '"' {
        out.append("\\\"");
    } else if c == '\\' {
        out.append("\\\\");
    } else if c == '\u{8}' {
        out.append("\\b");
    } else if c == '\u{c}' {
        out.append("\\f");
    } else if c == '\n' {
        out.append("\\n");
    } else if c == '\r' {
        out.append("\\r");
    } else if c == '\t' {
        out.append("\\t");
    } else if (c as u32) < 0x20 {
        let code = c as u32;
        out.append("\\u00");
        out.append(hex_str(code / 16));
        out.append(hex_str(code % 16));
        proof {
            assert(out@ =~= old(out)@ + json_escape_char(c));
        }
    } else {
        let one = s.substring_char(i, i + 1);
        proof {
            assert(one@ =~= seq![c]);
        }
        out.append(one);
    }
    proof {
        assert(out@ =~= old(out)@ + json_escape_char(c));
    }
}

/// Append a text's JSON string form: the escaped text between quotes.
fn append_json_string(out: &mut String, s: &str)
    ensures
        final(out)@ == old(out)@ + spec_json_string(s@),
{
    out.append("\"");
    let n = s.unicode_len();
    let mut i: usize = 0;
    proof {
        reveal_strlit("\"");
        assert(s@.subrange(0, 0) =~= Seq::<char>::empty());
        assert(out@ =~= old(out)@ + seq!['"'] + json_escaped(s@.subrange(0, 0)));
    }
    while i < n
        invariant
            n == s@.len(),
            i <= n,
            out@ == old(out)@ + seq!['"'] + json_escaped(s@.subrange(0, i as int)),
        decreases n - i,
    {
        append_escaped_at(out, s, i);
        proof {
            let pre = s@.subrange(0, i as int);
            let post = s@.subrange(0, i + 1 as int);
            assert(post.drop_last() =~= pre);
            assert(post.last() == s@[i as int]);
            assert(out@ =~= old(out)@ + seq!['"'] + json_escaped(post));
        }
        i = i + 1;
    }
    out.append("\"");
    proof {
        reveal_strlit("\"");
        assert(s@.subrange(0, n as int) =~= s@);
        assert(out@ =~= old(out)@ + spec_json_string(s@));
    }
}

/// The JSON object for one task row, exactly as the service sends it.
pub fn task_json(t: &Task) -> (r: String)
    ensures
        r@ == spec_task_json(t@),
{
    let mut out = String::from_str("{\"id\":");
    let id_str = i64_to_string(t.id);
    out.append(id_str.as_str());
    out.append(",\"task\":");
    append_json_string(&mut out, t.task.as_str());
    out.append("}");
    proof {
        assert(out@ =~= spec_task_json(t@));
    }
    out
}

/// The JSON array for a list of task rows, exactly as the service sends
/// it.
pub fn tasks_json(tasks: &Vec<Task>) -> (r: String)
    ensures
        r@ == spec_tasks_json(crate::store::views_of(tasks@)),
{
    let ghost rows = crate::store::views_of(tasks@);
    let mut out = String::from_str("[");
    proof {
        reveal_strlit("[");
        assert(rows.subrange(0, 0) =~= Seq::<TaskView>::empty());
        assert(out@ =~= seq!['['] + spec_tasks_json_members(rows.subrange(0, 0)));
    }
    let n = tasks.len();
    let mut i: usize = 0;
    while i < n
        invariant
            n == tasks@.len(),
            rows == crate::store::views_of(tasks@),
            rows.len() == n,
            i <= n,
            out@ == seq!['['] + spec_tasks_json_members(rows.subrange(0, i as int)),
        decreases n - i,
    {
        if i > 0 {
            out.append(",");
            proof {
                reveal_strlit(",");
            }
        }
        let member = task_json(&tasks[i]);
        out.append(member.as_str());
        proof {
            let pre = rows.subrange(0, i as int);
            let post = rows.subrange(0, i + 1 as int);
            assert(post.drop_last() =~= pre);
            assert(post.last() == rows[i as int]);
            assert(rows[i as int] == tasks@[i as int]@);
            assert(out@ =~= seq!['['] + spec_tasks_json_members(post));
        }
        i = i + 1;
    }
    out.append("]");
    proof {
        reveal_strlit("]");
        assert(rows.subrange(0, n as int) =~= rows);
        assert(out@ =~= spec_tasks_json(rows));
    }
    out
}

/// The JSON object echoing an update payload, exactly as the service
/// sends it.
pub fn update_task_json(u: &UpdateTask) -> (r: String)
    ensures
        r@ == spec_update_task_json(u@),
{
    let mut out = String::from_str("{\"task\":");
    append_json_string(&mut out, u.task.as_str());
    out.append("}");
    proof {
        assert(out@ =~= spec_update_task_json(u@));
    }
    out
}

/// The JSON object for a message body, exactly as the service sends it.
pub fn msg_json(m: &Msg) -> (r: String)
    ensures
        r@ == spec_msg_json(m@),
{
    let mut out = String::from_str("{\"msg\":");
    append_json_string(&mut out, m.msg.as_str());
    out.append("}");
    proof {
        assert(out@ =~= spec_msg_json(m@));
    }
    out
}

} // verus!
