//! JSON rendering of listing responses and error payloads.
//!
//! The wire format is fixed and small, so the encoder is written out here
//! and verified against a character-level specification: strings are quoted
//! with `"`, `\` and control characters escaped (the usual two-character
//! short escapes, `\u00XX` for the rest), and the two payload shapes are
//! plain objects with a fixed key order.

use vstd::prelude::*;

use crate::listing::FileItem;

verus! {

/// The hexadecimal digit for `n` (lower case), for `0 <= n < 16`.
pub open spec fn hex_digit(n: int) -> char {
    if n == 0 {
        '0'
    } else if n == 1 {
        '1'
    } else if n == 2 {
        '2'
    } else if n == 3 {
        '3'
    } else if n == 4 {
        '4'
    } else if n == 5 {
        '5'
    } else if n == 6 {
        '6'
    } else if n == 7 {
        '7'
    } else if n == 8 {
        '8'
    } else if n == 9 {
        '9'
    } else if n == 10 {
        'a'
    } else if n == 11 {
        'b'
    } else if n == 12 {
        'c'
    } else if n == 13 {
        'd'
    } else if n == 14 {
        'e'
    } else {
        'f'
    }
}

fn hex_digit_str(n: u8) -> (r: &'static str)
    requires
        n < 16,
    ensures
        r@ == seq![hex_digit(n as int)],
{
    proof {
        reveal_strlit("0");
        reveal_strlit("1");
        reveal_strlit("2");
        reveal_strlit("3");
        reveal_strlit("4");
        reveal_strlit("5");
        reveal_strlit("6");
        reveal_strlit("7");
        reveal_strlit("8");
        reveal_strlit("9");
        reveal_strlit("a");
        reveal_strlit("b");
        reveal_strlit("c");
        reveal_strlit("d");
        reveal_strlit("e");
        reveal_strlit("f");
    }
    match n {
        0 => "0",
        1 => "1",
        2 => "2",
        3 => "3",
        4 => "4",
        5 => "5",
        6 => "6",
        7 => "7",
        8 => "8",
        9 => "9",
        10 => "a",
        11 => "b",
        12 => "c",
        13 => "d",
        14 => "e",
        _ => "f",
    }
}

/// How one character is written inside a JSON string: itself, a
/// two-character short escape, or a `\u00XX` escape for the remaining
/// control characters.
pub open spec fn esc_char(c: char) -> Seq<char> {
    if c == '"' {
        seq!['\\', '"']
    } else if c == '\\' {
        seq!['\\', '\\']
    } else if c == '\u{8}' {
        seq!['\\', 'b']
    } else if c == '\t' {
        seq!['\\', 't']
    } else if c == '\n' {
        seq!['\\', 'n']
    } else if c == '\u{c}' {
        seq!['\\', 'f']
    } else if c == '\r' {
        seq!['\\', 'r']
    } else if (c as u32) < 0x20 {
        seq!['\\', 'u', '0', '0', hex_digit(c as u32 as int / 16), hex_digit(c as u32 as int % 16)]
    } else {
        seq![c]
    }
}

/// The body of a JSON string: every character escaped as [`esc_char`] says.
pub open spec fn escaped(s: Seq<char>) -> Seq<char>
    decreases s.len(),
{
    if s.len() == 0 {
        Seq::empty()
    } else {
        esc_char(s[0]) + escaped(s.drop_first())
    }
}

/// A complete JSON string: the escaped body between quotes.
pub open spec fn quoted(s: Seq<char>) -> Seq<char> {
    seq!['"'] + escaped(s) + seq!['"']
}

proof fn lemma_escaped_snoc(s: Seq<char>, c: char)
    ensures
        escaped(s.push(c)) == escaped(s) + esc_char(c),
    decreases s.len(),
{
    let p = s.push(c);
    if s.len() == 0 {
        assert(p.len() == 1 && p[0] == c);
        assert(p.drop_first() =~= Seq::<char>::empty());
        assert(escaped(p.drop_first()) == Seq::<char>::empty());
        assert(escaped(p) == esc_char(c) + escaped(p.drop_first()));
        assert(escaped(p) =~= escaped(s) + esc_char(c));
    } else {
        assert(p.len() == s.len() + 1 && p[0] == s[0]);
        assert(p.drop_first() =~= s.drop_first().push(c));
        lemma_escaped_snoc(s.drop_first(), c);
        assert(escaped(p) == esc_char(s[0]) + (escaped(s.drop_first()) + esc_char(c)));
        assert(escaped(p) =~= (esc_char(s[0]) + escaped(s.drop_first())) + esc_char(c));
    }
}

/// Appends the quoted, escaped form of `s` to `out`.
fn append_quoted(out: &mut String, s: &str)
    ensures
        final(out)@ == old(out)@ + quoted(s@),
{
    let ghost start = out@;
    out.append("\"");
    proof {
        reveal_strlit("\"");
        assert("\""@ =~= seq!['"']);
    }
    let n = s.unicode_len();
    let mut i: usize = 0;
    while i < n
        invariant
            0 <= i <= n == s@.len(),
            out@ == start + seq!['"'] + escaped(s@.take(i as int)),
        decreases n - i,
    {
        let ghost before = out@;
        let c = s.get_char(i);
        let v = c as u32;
        if c == '"' {
            out.append("\\\"");
            proof {
                reveal_strlit("\\\"");
                assert("\\\""@ =~= seq!['\\', '"']);
            }
        } else if c == '\\' {
            out.append("\\\\");
            proof {
                reveal_strlit("\\\\");
                assert("\\\\"@ =~= seq!['\\', '\\']);
            }
        } else if v == 0x8 {
            out.append("\\b");
            proof {
                reveal_strlit("\\b");
                assert("\\b"@ =~= seq!['\\', 'b']);
            }
        } else if v == 0x9 {
            out.append("\\t");
            proof {
                reveal_strlit("\\t");
                assert("\\t"@ =~= seq!['\\', 't']);
            }
        } else if v == 0xa {
            out.append("\\n");
            proof {
                reveal_strlit("\\n");
                assert("\\n"@ =~= seq!['\\', 'n']);
            }
        } else if v == 0xc {
            out.append("\\f");
            proof {
                reveal_strlit("\\f");
                assert("\\f"@ =~= seq!['\\', 'f']);
            }
        } else if v == 0xd {
            out.append("\\r");
            proof {
                reveal_strlit("\\r");
                assert("\\r"@ =~= seq!['\\', 'r']);
            }
        } else if v < 0x20 {
            out.append("\\u00");
            out.append(hex_digit_str((v / 16) as u8));
            out.append(hex_digit_str((v % 16) as u8));
            proof {
                reveal_strlit("\\u00");
                assert("\\u00"@ =~= seq!['\\', 'u', '0', '0']);
                assert(out@ =~= before + esc_char(c));
            }
        } else {
            let piece = s.substring_char(i, i + 1);
            out.append(piece);
            proof {
                assert(piece@ =~= seq![s@[i as int]]);
            }
        }
        proof {
            assert(out@ =~= before + esc_char(c));
            assert(s@.take(i + 1) =~= s@.take(i as int).push(c));
            lemma_escaped_snoc(s@.take(i as int), c);
            assert(out@ =~= start + seq!['"'] + escaped(s@.take(i + 1)));
        }
        i += 1;
    }
    out.append("\"");
    proof {
        reveal_strlit("\"");
        assert(s@.take(n as int) =~= s@);
        assert(out@ =~= start + quoted(s@));
    }
}

/// The name and size strings of a sequence of listing entries, the view the
/// rendering specifications speak of.
pub open spec fn item_views(items: Seq<FileItem>) -> Seq<(Seq<char>, Seq<char>)> {
    items.map_values(|it: FileItem| (it.name@, it.size@))
}

/// One listing entry as a JSON object with the fixed keys `name` and `size`.
pub open spec fn entry_json(p: (Seq<char>, Seq<char>)) -> Seq<char> {
    "{\"name\":"@ + quoted(p.0) + ",\"size\":"@ + quoted(p.1) + seq!['}']
}

/// A sequence of listing entries as the comma-separated body of a JSON
/// array.
pub open spec fn entries_json(ps: Seq<(Seq<char>, Seq<char>)>) -> Seq<char>
    decreases ps.len(),
{
    if ps.len() == 0 {
        Seq::empty()
    } else if ps.len() == 1 {
        entry_json(ps[0])
    } else {
        entries_json(ps.drop_last()) + seq![','] + entry_json(ps.last())
    }
}

/// Appends one entry object to `out`.
fn append_entry(out: &mut String, item: &FileItem)
    ensures
        final(out)@ == old(out)@ + entry_json((item.name@, item.size@)),
{
    out.append("{\"name\":");
    append_quoted(out, item.name.as_str());
    out.append(",\"size\":");
    append_quoted(out, item.size.as_str());
    out.append("}");
    proof {
        reveal_strlit("{\"name\":");
        reveal_strlit(",\"size\":");
        reveal_strlit("}");
        assert("}"@ =~= seq!['}']);
        assert(out@ =~= old(out)@ + entry_json((item.name@, item.size@)));
    }
}

/// Appends the comma-separated entry objects to `out`.
fn append_entries(out: &mut String, items: &Vec<FileItem>)
    ensures
        final(out)@ == old(out)@ + entries_json(item_views(items@)),
{
    let ghost start = out@;
    let ghost vs = item_views(items@);
    let n = items.len();
    proof {
        assert(vs.len() == n);
    }
    let mut i: usize = 0;
    while i < n
        invariant
            0 <= i <= n == items@.len(),
            vs == item_views(items@),
            vs.len() == n,
            out@ == start + entries_json(vs.take(i as int)),
        decreases n - i,
    {
        let ghost before = out@;
        if i > 0 {
            out.append(",");
            proof {
                reveal_strlit(",");
            }
        }
        append_entry(out, &items[i]);
        proof {
            assert(vs[i as int] == (items@[i as int].name@, items@[i as int].size@));
            assert(vs.take(i + 1).drop_last() =~= vs.take(i as int));
            assert(vs.take(i + 1).last() == vs[i as int]);
            if i == 0 {
                assert(vs.take(1).len() == 1);
                assert(out@ =~= start + entries_json(vs.take(1)));
            } else {
                assert(","@ =~= seq![',']);
                assert(out@ =~= start + entries_json(vs.take(i + 1)));
            }
        }
        i += 1;
    }
    proof {
        assert(vs.take(n as int) =~= vs);
    }
}

/// The successful listing payload: the action tag, the listed path, and the
/// folder and file entries, in that fixed key order.
pub open spec fn respond_json(
    action: Seq<char>,
    path: Seq<char>,
    folders: Seq<(Seq<char>, Seq<char>)>,
    files: Seq<(Seq<char>, Seq<char>)>,
) -> Seq<char> {
    "{\"action\":"@ + quoted(action) + ",\"path\":"@ + quoted(path) + ",\"folders\":["@
        + entries_json(folders) + "],\"files\":["@ + entries_json(files) + "]}"@
}

/// The error payload: the `sendError` action tag and a message.
pub open spec fn error_json(message: Seq<char>) -> Seq<char> {
    "{\"action\":\"sendError\",\"message\":"@ + quoted(message) + seq!['}']
}

/// Renders the successful listing payload.
pub fn render_filelist(action: &str, path: &str, folders: &Vec<FileItem>, files: &Vec<FileItem>)
    -> (r: String)
    ensures
        r@ == respond_json(action@, path@, item_views(folders@), item_views(files@)),
{
    let mut out = String::new();
    out.append("{\"action\":");
    append_quoted(&mut out, action);
    out.append(",\"path\":");
    append_quoted(&mut out, path);
    out.append(",\"folders\":[");
    append_entries(&mut out, folders);
    out.append("],\"files\":[");
    append_entries(&mut out, files);
    out.append("]}");
    proof {
        reveal_strlit("{\"action\":");
        reveal_strlit(",\"path\":");
        reveal_strlit(",\"folders\":[");
        reveal_strlit("],\"files\":[");
        reveal_strlit("]}");
        assert(out@ =~= respond_json(action@, path@, item_views(folders@), item_views(files@)));
    }
    out
}

/// Renders the error payload.
pub fn render_error(message: &str) -> (r: String)
    ensures
        r@ == error_json(message@),
{
    let mut out = String::new();
    out.append("{\"action\":\"sendError\",\"message\":");
    append_quoted(&mut out, message);
    out.append("}");
    proof {
        reveal_strlit("{\"action\":\"sendError\",\"message\":");
        reveal_strlit("}");
        assert("}"@ =~= seq!['}']);
        assert(out@ =~= error_json(message@));
    }
    out
}

} // verus!
