//! The lexical rules by which constructs are recognised: which names mark a
//! storage-backed type, which decorations declare a route and what path they
//! name, and which files hold Python source.

use crate::text::{after_mark, before_mark, contains_chars, find_char, occurs_in, text_chars};
use vstd::prelude::*;
use vstd::string::StringExecFns;

verus! {

/// A type name marks a storage-backed type when it holds `Person`,
/// anywhere and in exactly this spelling.
pub open spec fn is_persisted_name(name: Seq<char>) -> bool {
    occurs_in("Person"@, name)
}

/// A decoration declares a route when its text holds `@app.`.
pub open spec fn declares_route(decorator: Seq<char>) -> bool {
    occurs_in("@app."@, decorator)
}

/// `text` without one double quote at its front and without one at its end,
/// each only if it is there.
pub open spec fn strip_quotes(text: Seq<char>) -> Seq<char> {
    let inner = if text.len() > 0 && text[0] == '"' {
        text.drop_first()
    } else {
        text
    };
    if inner.len() > 0 && inner.last() == '"' {
        inner.drop_last()
    } else {
        inner
    }
}

/// The path that a route decoration names. Cut the text at every `(` and take
/// the second piece, cut that at every `)` and take the first piece, then
/// strip the quotes. A text without `(` names the empty path.
pub open spec fn route_text(decorator: Seq<char>) -> Seq<char> {
    strip_quotes(before_mark(before_mark(after_mark(decorator, '('), '('), ')'))
}

/// A file name belongs to a Python source file when its extension is `py`:
/// it ends in `.py` and has at least one character in front of that.
pub open spec fn is_python_file_name(name: Seq<char>) -> bool {
    &&& name.len() > 3
    &&& name.subrange(name.len() - 3, name.len() as int) =~= ".py"@
}

/// Whether a type of this name is flagged as storage-backed.
pub fn names_persisted_entity(name: &str) -> (flagged: bool)
    ensures
        flagged == is_persisted_name(name@),
{
    let name_chars = text_chars(name);
    let marker = text_chars("Person");
    contains_chars(name_chars.as_slice(), marker.as_slice())
}

/// Whether a decoration with this text declares a route.
pub fn is_route_decorator(decorator: &str) -> (declares: bool)
    ensures
        declares == declares_route(decorator@),
{
    let decorator_chars = text_chars(decorator);
    let prefix = text_chars("@app.");
    contains_chars(decorator_chars.as_slice(), prefix.as_slice())
}

/// The path that a route decoration with this text names.
pub fn extract_route(decorator: &str) -> (route: String)
    ensures
        route@ == route_text(decorator@),
{
    let chars = text_chars(decorator);
    let text = chars.as_slice();
    let length = text.len();
    let open = find_char(text, 0, length, '(');
    assert(text@.subrange(0, length as int) =~= decorator@);
    if open == length {
        assert(route_text(decorator@) =~= Seq::<char>::empty());
        return String::new();
    }
    let next_open = find_char(text, open + 1, length, '(');
    let close = find_char(text, open + 1, next_open, ')');
    let ghost arguments = decorator@.subrange(open + 1, next_open as int);
    let ghost piece = decorator@.subrange(open + 1, close as int);
    proof {
        assert(after_mark(decorator@, '(') =~= decorator@.subrange(open + 1, length as int));
        assert(before_mark(after_mark(decorator@, '('), '(') =~= arguments);
        assert(before_mark(arguments, ')') =~= piece);
    }
    let mut from: usize = open + 1;
    let mut to: usize = close;
    if from < to && text[from] == '"' {
        from += 1;
    }
    if from < to && text[to - 1] == '"' {
        to -= 1;
    }
    assert(strip_quotes(piece) =~= decorator@.subrange(from as int, to as int));
    String::from_str(decorator.substring_char(from, to))
}

/// Whether a file of this name holds Python source.
pub fn has_python_extension(file_name: &str) -> (matches: bool)
    ensures
        matches == is_python_file_name(file_name@),
{
    let chars = text_chars(file_name);
    let length = chars.len();
    proof {
        reveal_strlit(".py");
    }
    if length > 3 {
        let ghost tail = file_name@.subrange(length - 3, length as int);
        assert(tail[0] == file_name@[length - 3]);
        assert(tail[1] == file_name@[length - 2]);
        assert(tail[2] == file_name@[length - 1]);
        chars[length - 3] == '.' && chars[length - 2] == 'p' && chars[length - 1] == 'y'
    } else {
        false
    }
}

} // verus!
