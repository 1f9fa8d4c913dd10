use vstd::prelude::*;
use crate::entry::{DirChild, FileInfo, FileInfoView};
use crate::error::{ErrorKind, OpError};
use crate::paths::{join, joined};

verus! {

/// The `kind` text of a child.
pub open spec fn kind_text(is_dir: bool) -> Seq<char> {
    if is_dir {
        "directory"@
    } else {
        "file"@
    }
}

/// The children whose metadata could be read, in enumeration order.
pub open spec fn readable(c: Seq<Option<DirChild>>) -> Seq<DirChild>
    decreases c.len(),
{
    if c.len() == 0 {
        Seq::empty()
    } else {
        match c.last() {
            Some(d) => readable(c.drop_last()).push(d),
            None => readable(c.drop_last()),
        }
    }
}

/// The entry that a readable child of `dir` is listed as.
pub open spec fn info_of(dir: Seq<char>, d: DirChild) -> FileInfoView {
    FileInfoView { name: d.name@, kind: kind_text(d.is_dir), path: joined(dir, d.name@) }
}

/// The listing of `dir` whose enumeration gave `c`.
pub open spec fn listing_of(dir: Seq<char>, c: Seq<Option<DirChild>>) -> Seq<FileInfoView> {
    readable(c).map_values(|d: DirChild| info_of(dir, d))
}

/// A listing holds exactly the children whose metadata could be read, in the
/// order of enumeration, each under its own name and with the kind of its type.
pub proof fn listing_is_readable_children(dir: Seq<char>, c: Seq<Option<DirChild>>)
    ensures
        listing_of(dir, c).len() == readable(c).len(),
        forall|k: int|
            0 <= k < readable(c).len() ==> {
                &&& (#[trigger] listing_of(dir, c)[k]).name == readable(c)[k].name@
                &&& listing_of(dir, c)[k].kind == kind_text(readable(c)[k].is_dir)
                &&& listing_of(dir, c)[k].path == joined(dir, readable(c)[k].name@)
            },
        forall|d: DirChild| c.contains(Some(d)) <==> readable(c).contains(d),
    decreases c.len(),
{
    if c.len() > 0 {
        listing_is_readable_children(dir, c.drop_last());
        let r0 = readable(c.drop_last());
        assert(forall|m: int| 0 <= m < r0.len() ==> readable(c)[m] == r0[m]);
        assert forall|d: DirChild| c.contains(Some(d)) <==> readable(c).contains(d) by {
            if c.contains(Some(d)) {
                let j = choose|j: int| 0 <= j < c.len() && c[j] == Some(d);
                if j < c.len() - 1 {
                    assert(c.drop_last()[j] == Some(d));
                    assert(c.drop_last().contains(Some(d)));
                    assert(r0.contains(d));
                    let m = choose|m: int| 0 <= m < r0.len() && r0[m] == d;
                    assert(readable(c)[m] == d);
                } else {
                    assert(readable(c).last() == d);
                }
            }
            if readable(c).contains(d) {
                let m = choose|m: int| 0 <= m < readable(c).len() && readable(c)[m] == d;
                if m < r0.len() {
                    assert(r0[m] == d);
                    assert(r0.contains(d));
                    assert(c.drop_last().contains(Some(d)));
                    let j = choose|j: int| 0 <= j < c.drop_last().len() && c.drop_last()[j] == Some(d);
                    assert(c[j] == Some(d));
                } else {
                    assert(c[c.len() - 1] == Some(d));
                }
            }
        }
    }
}

pub open spec fn views(fs: Seq<FileInfo>) -> Seq<FileInfoView> {
    fs.map_values(|f: FileInfo| f@)
}

/// The listing of directory `dir` from what enumerating it gave: `None` for a
/// child whose entry or metadata could not be read, which is left out.
pub fn list_entries(dir: &str, children: &Vec<Option<DirChild>>) -> (r: Vec<FileInfo>)
    ensures
        views(r@) == listing_of(dir@, children@),
{
    let mut r: Vec<FileInfo> = Vec::new();
    let mut i: usize = 0;
    while i < children.len()
        invariant
            i <= children@.len(),
            views(r@) == listing_of(dir@, children@.take(i as int)),
        decreases children@.len() - i,
    {
        assert(children@.take(i + 1).drop_last() == children@.take(i as int));
        let ghost prev = children@.take(i as int);
        let ghost next = children@.take(i + 1);
        match &children[i] {
            Some(d) => {
                let kind = if d.is_dir {
                    "directory".to_string()
                } else {
                    "file".to_string()
                };
                let info = FileInfo { name: d.name.clone(), kind, path: join(dir, d.name.as_str()) };
                assert(info@ == info_of(dir@, *d));
                r.push(info);
                assert(readable(next) == readable(prev).push(*d));
                assert(views(r@) =~= views(r@.drop_last()).push(info@));
                assert(listing_of(dir@, next) =~= listing_of(dir@, prev).push(info@));
            },
            None => {
                assert(readable(next) == readable(prev));
            },
        }
        i = i + 1;
    }
    assert(children@.take(i as int) == children@);
    r
}

/// A lowercase hexadecimal digit.
pub open spec fn hex_digit(n: u32) -> char {
    if n < 10 {
        ('0' as u32 + n) as char
    } else {
        ('a' as u32 + n - 10) as char
    }
}

/// How one character stands inside a JSON string literal: `"` and `\` after a
/// backslash, the five short escapes, `\u00` and two hex digits for any other
/// character below 0x20, and every other character as it is.
pub open spec fn json_escape(c: char) -> Seq<char> {
    if c == '"' {
        seq!['\\', '"']
    } else if c == '\\' {
        seq!['\\', '\\']
    } else if c == '\x08' {
        seq!['\\', 'b']
    } else if c == '\t' {
        seq!['\\', 't']
    } else if c == '\n' {
        seq!['\\', 'n']
    } else if c == '\x0C' {
        seq!['\\', 'f']
    } else if c == '\r' {
        seq!['\\', 'r']
    } else if (c as u32) < 0x20 {
        seq!['\\', 'u', '0', '0', hex_digit((c as u32) / 16), hex_digit((c as u32) % 16)]
    } else {
        seq![c]
    }
}

/// The characters of a text, each escaped as `json_escape` says.
pub open spec fn json_escaped(s: Seq<char>) -> Seq<char>
    decreases s.len(),
{
    if s.len() == 0 {
        Seq::empty()
    } else {
        json_escaped(s.drop_last()) + json_escape(s.last())
    }
}

/// The JSON string literal of a text: the escaped text in double quotes.
pub open spec fn json_quoted(s: Seq<char>) -> Seq<char> {
    seq!['"'] + json_escaped(s) + seq!['"']
}

/// The text that Rust's `Debug` (`{:?}`) gives for the `Path` of a text:
/// quoted and escaped.
pub uninterp spec fn debug_text(s: Seq<char>) -> Seq<char>;

/// Relies on serde_json::to_string on a `str`: its JSON string literal, with
/// the escapes of serde_json's table. The serializer writes into a `Vec`,
/// which cannot fail, so the `Ok` case is the only one.
#[verifier::external_body]
fn quote_json(s: &str) -> (r: String)
    ensures
        r@ == json_quoted(s@),
{
    serde_json::to_string(s).unwrap_or_default()
}

/// Relies on std's `Debug` for `Path` (`format!("{:?}")`): the quoted,
/// escaped path text.
#[verifier::external_body]
pub(crate) fn quote_debug(s: &str) -> (r: String)
    ensures
        r@ == debug_text(s@),
{
    format!("{:?}", std::path::Path::new(s))
}

/// One listing entry as a JSON object, from its three fields already quoted.
pub open spec fn record_text(name_q: Seq<char>, kind_q: Seq<char>, path_q: Seq<char>) -> Seq<char> {
    "{\"name\":"@ + name_q + ",\"kind\":"@ + kind_q + ",\"path\":"@ + path_q + "}"@
}

pub open spec fn info_json(f: FileInfoView) -> Seq<char> {
    record_text(json_quoted(f.name), json_quoted(f.kind), json_quoted(f.path))
}

/// The entries' objects, separated by commas.
pub open spec fn items_json(fs: Seq<FileInfoView>) -> Seq<char>
    decreases fs.len(),
{
    if fs.len() == 0 {
        Seq::empty()
    } else if fs.len() == 1 {
        info_json(fs[0])
    } else {
        items_json(fs.drop_last()) + ","@ + info_json(fs.last())
    }
}

/// A listing as a JSON array of objects with the fields name, kind, path.
pub open spec fn listing_json(fs: Seq<FileInfoView>) -> Seq<char> {
    "["@ + items_json(fs) + "]"@
}

/// The JSON object of one entry, from the JSON literals of its fields.
pub fn json_record(name_q: &str, kind_q: &str, path_q: &str) -> (r: String)
    ensures
        r@ == record_text(name_q@, kind_q@, path_q@),
{
    proof {
        reveal_strlit("{\"name\":");
        reveal_strlit(",\"kind\":");
        reveal_strlit(",\"path\":");
        reveal_strlit("}");
    }
    let mut r = "{\"name\":".to_string();
    r.append(name_q);
    r.append(",\"kind\":");
    r.append(kind_q);
    r.append(",\"path\":");
    r.append(path_q);
    r.append("}");
    r
}

/// A listing as JSON text.
pub fn entries_json(files: &Vec<FileInfo>) -> (r: String)
    ensures
        r@ == listing_json(views(files@)),
{
    proof {
        reveal_strlit("[");
        reveal_strlit("]");
        reveal_strlit(",");
    }
    let mut body = String::new();
    let mut i: usize = 0;
    while i < files.len()
        invariant
            i <= files@.len(),
            body@ == items_json(views(files@.take(i as int))),
        decreases files@.len() - i,
    {
        let f = &files[i];
        let n = quote_json(f.name.as_str());
        let k = quote_json(f.kind.as_str());
        let p = quote_json(f.path.as_str());
        let rec = json_record(n.as_str(), k.as_str(), p.as_str());
        let ghost before = views(files@.take(i as int));
        let ghost after = views(files@.take(i + 1));
        assert(after.drop_last() =~= before);
        assert(after.last() == files@[i as int]@);
        if i > 0 {
            body.append(",");
        }
        body.append(rec.as_str());
        i = i + 1;
    }
    assert(files@.take(i as int) == files@);
    let mut r = "[".to_string();
    r.append(body.as_str());
    r.append("]");
    r
}

/// The text of the error for a directory that does not exist, from the path's
/// `{:?}` text.
pub fn missing_path_message(quoted: &str) -> (r: String)
    ensures
        r@ == "Path does not exist: "@ + quoted@,
{
    proof {
        reveal_strlit("Path does not exist: ");
    }
    let mut r = "Path does not exist: ".to_string();
    r.append(quoted);
    r
}

/// The reply to a listing request for `dir`: `exists` tells whether the path
/// exists, and `children` holds what enumerating it gave, or `None` where it
/// could not be opened, which lists as empty.
pub fn listing_reply(dir: &str, exists: bool, children: Option<&Vec<Option<DirChild>>>) -> (r: Result<String, OpError>)
    ensures
        !exists ==> (r matches Err(e) && e.kind == ErrorKind::NotFound
            && e.message@ == "Path does not exist: "@ + debug_text(dir@)),
        exists && children is None ==> (r matches Ok(s) && s@ == "[]"@),
        exists && children is Some ==> (r matches Ok(s)
            && s@ == listing_json(listing_of(dir@, children.unwrap()@))),
{
    if !exists {
        let q = quote_debug(dir);
        return Err(OpError { kind: ErrorKind::NotFound, message: missing_path_message(q.as_str()) });
    }
    match children {
        None => Ok("[]".to_string()),
        Some(c) => {
            let files = list_entries(dir, c);
            Ok(entries_json(&files))
        },
    }
}

} // verus!
