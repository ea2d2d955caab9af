//! Compiling route templates into anchored regular expressions.
//!
//! A template is literal text with placeholders of the form
//! `{[name][:type]}`, where the name and the type are runs of ASCII letters.
//! Each placeholder becomes one capture group whose shape depends on its type;
//! the literal text around the placeholders is escaped.
use vstd::prelude::*;
use crate::engine::{escape, escaped, optional_texts_view, regex_compiles, regex_matches, CompiledRegex};

verus! {

/// An ASCII letter, the only character allowed in placeholder names and types.
pub open spec fn is_letter(c: char) -> bool {
    ('a' <= c && c <= 'z') || ('A' <= c && c <= 'Z')
}

/// The index just past the run of letters of `t` that starts at `i`.
pub open spec fn letters_end(t: Seq<char>, i: int) -> int
    decreases t.len() - i,
{
    if 0 <= i < t.len() && is_letter(t[i]) {
        letters_end(t, i + 1)
    } else {
        i
    }
}

/// The placeholder that starts at index `i` of `t`, if one does: the index
/// just past its closing brace, its name and its type tag.
pub open spec fn placeholder_at(t: Seq<char>, i: int) -> Option<
    (int, Option<Seq<char>>, Option<Seq<char>>),
> {
    if 0 <= i < t.len() && t[i] == '{' {
        let n = letters_end(t, i + 1);
        let name = if n > i + 1 {
            Some(t.subrange(i + 1, n))
        } else {
            None
        };
        if n < t.len() && t[n] == '}' {
            Some((n + 1, name, None))
        } else if n < t.len() && t[n] == ':' {
            let k = letters_end(t, n + 1);
            if k > n + 1 && k < t.len() && t[k] == '}' {
                Some((k + 1, name, Some(t.subrange(n + 1, k))))
            } else {
                None
            }
        } else {
            None
        }
    } else {
        None
    }
}

/// A part of a parsed template.
pub ghost enum Piece {
    /// Text that must appear as it is.
    Literal(Seq<char>),
    /// A placeholder with its optional name and optional type tag.
    Placeholder(Option<Seq<char>>, Option<Seq<char>>),
}

/// The pieces of `t` from index `i` on, where the literal text still open
/// began at `lit`. Placeholders are taken leftmost first; a `{` that does not
/// open a placeholder is literal text.
pub open spec fn pieces_from(t: Seq<char>, i: int, lit: int) -> Seq<Piece>
    decreases t.len() - i,
    via pieces_from_decreases
{
    if i < 0 || i >= t.len() {
        seq![Piece::Literal(t.subrange(lit, t.len() as int))]
    } else {
        match placeholder_at(t, i) {
            Some((end, name, tag)) => seq![
                Piece::Literal(t.subrange(lit, i)),
                Piece::Placeholder(name, tag),
            ] + pieces_from(t, end, end),
            None => pieces_from(t, i + 1, lit),
        }
    }
}

proof fn lemma_letters_end(t: Seq<char>, i: int)
    ensures
        letters_end(t, i) >= i,
        0 <= i <= t.len() ==> letters_end(t, i) <= t.len(),
    decreases t.len() - i,
{
    if 0 <= i < t.len() && is_letter(t[i]) {
        lemma_letters_end(t, i + 1);
    }
}

#[via_fn]
proof fn pieces_from_decreases(t: Seq<char>, i: int, lit: int) {
    if 0 <= i < t.len() {
        lemma_letters_end(t, i + 1);
        let n = letters_end(t, i + 1);
        lemma_letters_end(t, n + 1);
    }
}

/// The pieces of the template `t`, in order.
pub open spec fn template_pieces(t: Seq<char>) -> Seq<Piece> {
    pieces_from(t, 0, 0)
}

/// The type of a placeholder, which decides what text it matches.
#[derive(Clone, Copy, Debug, PartialEq, Eq, Structural)]
pub enum Kind {
    /// One or more characters other than `/`; the default.
    Text,
    /// One or more decimal digits.
    Uint,
    /// An optional sign followed by one or more decimal digits.
    Int,
    /// One or more characters of any kind, `/` included.
    Path,
    /// A version 4 UUID in its hyphenated form.
    Uuid,
    /// An optional `.` followed by one or more characters other than `/`.
    OptionalExtension,
}

/// The kind named by a type tag, or `None` for an unknown tag.
pub open spec fn kind_of(tag: Option<Seq<char>>) -> Option<Kind> {
    match tag {
        None => Some(Kind::Text),
        Some(t) => if t == "oext"@ {
            Some(Kind::OptionalExtension)
        } else if t == "int"@ {
            Some(Kind::Int)
        } else if t == "uint"@ {
            Some(Kind::Uint)
        } else if t == "path"@ {
            Some(Kind::Path)
        } else if t == "uuid"@ {
            Some(Kind::Uuid)
        } else if t == "str"@ || t == "s"@ || t == "string"@ {
            Some(Kind::Text)
        } else {
            None
        },
    }
}

/// What opens a capture group of the given name, after its parenthesis.
pub open spec fn group_name(name: Option<Seq<char>>) -> Seq<char> {
    match name {
        Some(n) => "?P<"@ + n + ">"@,
        None => Seq::empty(),
    }
}

/// The capture group that a placeholder of this name and kind becomes.
pub open spec fn group_pattern(name: Option<Seq<char>>, kind: Kind) -> Seq<char> {
    let g = group_name(name);
    match kind {
        Kind::OptionalExtension => "(?:\\.("@ + g + "[^/]+))?"@,
        Kind::Int => "("@ + g + "[+-]?\\d+)"@,
        Kind::Uint => "("@ + g + "\\d+)"@,
        Kind::Path => "("@ + g + ".+)"@,
        Kind::Uuid => "("@ + g
            + "[a-fA-F0-9]{8}-[a-fA-F0-9]{4}-4[a-fA-F0-9]{3}-[89aAbB][a-fA-F0-9]{3}-[a-fA-F0-9]{12})"@,
        Kind::Text => "("@ + g + "[^/]+)"@,
    }
}

/// The expression text of one piece.
pub open spec fn piece_pattern(p: Piece) -> Seq<char> {
    match p {
        Piece::Literal(s) => escaped(s),
        Piece::Placeholder(name, tag) => match kind_of(tag) {
            Some(k) => group_pattern(name, k),
            None => Seq::empty(),
        },
    }
}

/// The expression text of a list of pieces, one after the other.
pub open spec fn pieces_pattern(ps: Seq<Piece>) -> Seq<char>
    decreases ps.len(),
{
    if ps.len() == 0 {
        Seq::empty()
    } else {
        pieces_pattern(ps.drop_last()) + piece_pattern(ps.last())
    }
}

/// The type tag of the first placeholder whose tag names no kind.
pub open spec fn unknown_tag(ps: Seq<Piece>) -> Option<Seq<char>>
    decreases ps.len(),
{
    if ps.len() == 0 {
        None
    } else if unknown_tag(ps.drop_last()) is Some {
        unknown_tag(ps.drop_last())
    } else {
        match ps.last() {
            Piece::Placeholder(_, Some(t)) => if kind_of(Some(t)) is None {
                Some(t)
            } else {
                None
            },
            _ => None,
        }
    }
}

/// The names of the placeholders among the pieces, in order.
pub open spec fn placeholder_names(ps: Seq<Piece>) -> Seq<Option<Seq<char>>>
    decreases ps.len(),
{
    if ps.len() == 0 {
        Seq::empty()
    } else {
        match ps.last() {
            Piece::Placeholder(name, _) => placeholder_names(ps.drop_last()).push(name),
            _ => placeholder_names(ps.drop_last()),
        }
    }
}

/// The anchored expression that a template compiles to.
pub open spec fn template_pattern(t: Seq<char>) -> Seq<char> {
    "^"@ + pieces_pattern(template_pieces(t)) + "$"@
}

/// The capture slots of a template: slot 0 for the whole match, then one
/// for each placeholder, holding its name if it has one.
pub open spec fn template_slots(t: Seq<char>) -> Seq<Option<Seq<char>>> {
    seq![None] + placeholder_names(template_pieces(t))
}

proof fn lemma_unknown_tag_prefix(a: Seq<Piece>, b: Seq<Piece>)
    requires
        unknown_tag(a) is Some,
    ensures
        unknown_tag(a + b) == unknown_tag(a),
    decreases b.len(),
{
    if b.len() == 0 {
        assert(a + b =~= a);
    } else {
        lemma_unknown_tag_prefix(a, b.drop_last());
        assert((a + b).drop_last() =~= a + b.drop_last());
    }
}

/// Why a template could not be compiled.
#[derive(Debug)]
pub enum PatternError {
    /// A placeholder names a type that does not exist; the tag is given.
    UnknownType(String),
    /// The regular expression engine refused the compiled expression, for
    /// instance because two placeholders share a name.
    Rejected(regex::Error),
}

/// The characters of `s`, in order.
pub fn chars_of(s: &str) -> (r: Vec<char>)
    ensures
        r@ == s@,
{
    let mut out: Vec<char> = Vec::new();
    for c in it: s.chars()
        invariant
            out@ == it.seq().take(it.index() as int),
    {
        out.push(c);
    }
    out
}

/// The index just past the run of ASCII letters that starts at `start`.
fn scan_letters(chars: &Vec<char>, start: usize) -> (r: usize)
    requires
        start <= chars.len(),
    ensures
        r as int == letters_end(chars@, start as int),
        start <= r <= chars.len(),
{
    let mut j = start;
    while j < chars.len() && (('a' <= chars[j] && chars[j] <= 'z') || ('A' <= chars[j]
        && chars[j] <= 'Z'))
        invariant
            start <= j <= chars.len(),
            letters_end(chars@, j as int) == letters_end(chars@, start as int),
        decreases chars.len() - j,
    {
        j = j + 1;
    }
    j
}

/// The text of `t` between two indices, when a range is given.
pub open spec fn range_text(t: Seq<char>, r: Option<(usize, usize)>) -> Option<Seq<char>> {
    match r {
        Some((a, b)) => Some(t.subrange(a as int, b as int)),
        None => None,
    }
}

/// Whether an optional range lies within `0..=end`.
pub open spec fn range_within(r: Option<(usize, usize)>, end: int) -> bool {
    match r {
        Some((a, b)) => a <= b <= end,
        None => true,
    }
}

/// The placeholder that starts at index `i`, if one does: the index just
/// past it, and where its name and its type tag lie.
fn scan_placeholder(chars: &Vec<char>, i: usize) -> (r: Option<
    (usize, Option<(usize, usize)>, Option<(usize, usize)>),
>)
    requires
        i < chars.len(),
    ensures
        match r {
            Some((end, name, tag)) => {
                &&& placeholder_at(chars@, i as int) == Some(
                    (end as int, range_text(chars@, name), range_text(chars@, tag)),
                )
                &&& i < end <= chars.len()
                &&& range_within(name, chars.len() as int)
                &&& range_within(tag, chars.len() as int)
            },
            None => placeholder_at(chars@, i as int) is None,
        },
{
    if chars[i] != '{' {
        return None;
    }
    let n = scan_letters(chars, i + 1);
    let name = if n > i + 1 {
        Some((i + 1, n))
    } else {
        None
    };
    if n < chars.len() && chars[n] == '}' {
        Some((n + 1, name, None))
    } else if n < chars.len() && chars[n] == ':' {
        let k = scan_letters(chars, n + 1);
        if k > n + 1 && k < chars.len() && chars[k] == '}' {
            Some((k + 1, name, Some((n + 1, k))))
        } else {
            None
        }
    } else {
        None
    }
}

/// Appends what opens a capture group of the given name.
fn push_group_name(buffer: &mut String, name: Option<&str>)
    ensures
        final(buffer)@ == old(buffer)@ + group_name(
            match name {
                Some(n) => Some(n@),
                None => None,
            },
        ),
{
    match name {
        Some(n) => {
            buffer.append("?P<");
            buffer.append(n);
            buffer.append(">");
        },
        None => {
            assert(old(buffer)@ + Seq::<char>::empty() =~= old(buffer)@);
        },
    }
}

/// The view of an optional text.
pub open spec fn optional_view(o: Option<&str>) -> Option<Seq<char>> {
    match o {
        Some(s) => Some(s@),
        None => None,
    }
}

/// Appends the capture group for a placeholder with the given name and type
/// tag, or reports an unknown tag and leaves the buffer as it was.
pub fn push_pattern(buffer: &mut String, name: Option<&str>, pattern: Option<&str>) -> (r: Result<
    (),
    PatternError,
>)
    ensures
        match kind_of(optional_view(pattern)) {
            Some(k) => r is Ok && final(buffer)@ == old(buffer)@ + group_pattern(
                optional_view(name),
                k,
            ),
            None => *final(buffer) == *old(buffer) && match r {
                Err(PatternError::UnknownType(t)) => optional_view(pattern) == Some(t@),
                _ => false,
            },
        },
{
    let kind = match pattern {
        None => Kind::Text,
        Some(p) => {
            let t = String::from_str(p);
            if t == String::from_str("oext") {
                Kind::OptionalExtension
            } else if t == String::from_str("int") {
                Kind::Int
            } else if t == String::from_str("uint") {
                Kind::Uint
            } else if t == String::from_str("path") {
                Kind::Path
            } else if t == String::from_str("uuid") {
                Kind::Uuid
            } else if t == String::from_str("str") || t == String::from_str("s") || t
                == String::from_str("string") {
                Kind::Text
            } else {
                return Err(PatternError::UnknownType(t));
            }
        },
    };
    let ghost start = buffer@;
    let ghost g = group_name(optional_view(name));
    match kind {
        Kind::OptionalExtension => {
            buffer.append("(?:\\.(");
            push_group_name(buffer, name);
            buffer.append("[^/]+))?");
            assert(buffer@ =~= start + ("(?:\\.("@ + g + "[^/]+))?"@));
        },
        Kind::Int => {
            buffer.append("(");
            push_group_name(buffer, name);
            buffer.append("[+-]?\\d+)");
            assert(buffer@ =~= start + ("("@ + g + "[+-]?\\d+)"@));
        },
        Kind::Uint => {
            buffer.append("(");
            push_group_name(buffer, name);
            buffer.append("\\d+)");
            assert(buffer@ =~= start + ("("@ + g + "\\d+)"@));
        },
        Kind::Path => {
            buffer.append("(");
            push_group_name(buffer, name);
            buffer.append(".+)");
            assert(buffer@ =~= start + ("("@ + g + ".+)"@));
        },
        Kind::Uuid => {
            buffer.append("(");
            push_group_name(buffer, name);
            buffer.append(
                "[a-fA-F0-9]{8}-[a-fA-F0-9]{4}-4[a-fA-F0-9]{3}-[89aAbB][a-fA-F0-9]{3}-[a-fA-F0-9]{12})",
            );
            assert(buffer@ =~= start + ("("@ + g
                + "[a-fA-F0-9]{8}-[a-fA-F0-9]{4}-4[a-fA-F0-9]{3}-[89aAbB][a-fA-F0-9]{3}-[a-fA-F0-9]{12})"@));
        },
        Kind::Text => {
            buffer.append("(");
            push_group_name(buffer, name);
            buffer.append("[^/]+)");
            assert(buffer@ =~= start + ("("@ + g + "[^/]+)"@));
        },
    }
    Ok(())
}

/// The views of a list of optional texts.
pub open spec fn names_view(v: Seq<Option<String>>) -> Seq<Option<Seq<char>>> {
    optional_texts_view(v)
}

/// Builds the anchored expression for a template and the names of its
/// capture slots, or reports the first placeholder type that does not exist.
pub fn regex_pattern(path: &str) -> (r: Result<(String, Vec<Option<String>>), PatternError>)
    ensures
        match r {
            Ok((source, slots)) => {
                &&& unknown_tag(template_pieces(path@)) is None
                &&& source@ == template_pattern(path@)
                &&& names_view(slots@) == template_slots(path@)
            },
            Err(PatternError::UnknownType(t)) => unknown_tag(template_pieces(path@)) == Some(t@),
            Err(PatternError::Rejected(_)) => false,
        },
{
    let chars = chars_of(path);
    let n = chars.len();
    let mut buffer = String::from_str("^");
    let mut slots: Vec<Option<String>> = Vec::new();
    slots.push(None);
    let ghost mut done: Seq<Piece> = Seq::empty();
    let mut i: usize = 0;
    let mut lit: usize = 0;
    assert(names_view(slots@) =~= seq![None] + placeholder_names(done));
    assert(buffer@ =~= "^"@ + pieces_pattern(done));
    assert(template_pieces(path@) =~= done + pieces_from(path@, 0, 0));
    while i < n
        invariant
            chars@ == path@,
            n == chars.len(),
            lit <= i <= n,
            template_pieces(path@) == done + pieces_from(path@, i as int, lit as int),
            buffer@ == "^"@ + pieces_pattern(done),
            names_view(slots@) == seq![None] + placeholder_names(done),
            unknown_tag(done) is None,
        decreases n - i,
    {
        match scan_placeholder(&chars, i) {
            Some((end, name_range, tag_range)) => {
                let ghost text = path@.subrange(lit as int, i as int);
                let ghost name_text = range_text(path@, name_range);
                let ghost tag_text = range_text(path@, tag_range);
                let ghost rest = pieces_from(path@, end as int, end as int);
                let ghost lit_piece = Piece::Literal(text);
                let ghost holder = Piece::Placeholder(name_text, tag_text);
                assert(pieces_from(path@, i as int, lit as int) == seq![lit_piece, holder] + rest);
                let name = match name_range {
                    Some((a, b)) => Some(path.substring_char(a, b)),
                    None => None,
                };
                let tag = match tag_range {
                    Some((a, b)) => Some(path.substring_char(a, b)),
                    None => None,
                };
                assert(optional_view(name) == name_text);
                assert(optional_view(tag) == tag_text);
                let ghost before = buffer@;
                let escaped_text = escape(path.substring_char(lit, i));
                buffer.append(escaped_text.as_str());
                let pushed = push_pattern(&mut buffer, name, tag);
                let ghost done2 = done.push(lit_piece).push(holder);
                assert(done2.drop_last() =~= done.push(lit_piece));
                assert(done.push(lit_piece).drop_last() =~= done);
                assert(done + (seq![lit_piece, holder] + rest) =~= done2 + rest);
                assert(unknown_tag(done.push(lit_piece)) is None);
                match pushed {
                    Ok(()) => {},
                    Err(e) => {
                        proof {
                            assert(unknown_tag(done2) == tag_text);
                            lemma_unknown_tag_prefix(done2, rest);
                        }
                        return Err(e);
                    },
                }
                proof {
                    let k = kind_of(tag_text)->Some_0;
                    assert(piece_pattern(holder) == group_pattern(name_text, k));
                    assert(pieces_pattern(done.push(lit_piece)) == pieces_pattern(done) + escaped(
                        text,
                    ));
                    assert(pieces_pattern(done2) == pieces_pattern(done.push(lit_piece))
                        + group_pattern(name_text, k));
                    assert(buffer@ =~= before + escaped(text) + group_pattern(name_text, k));
                    assert(buffer@ =~= "^"@ + pieces_pattern(done2));
                }
                let owned_name = match name {
                    Some(s) => Some(String::from_str(s)),
                    None => None,
                };
                let ghost old_slots = slots@;
                slots.push(owned_name);
                proof {
                    assert(slots@ == old_slots.push(owned_name));
                    assert(names_view(slots@)[slots@.len() - 1] == name_text);
                    assert(names_view(slots@) =~= names_view(old_slots).push(name_text));
                    assert(placeholder_names(done.push(lit_piece)) == placeholder_names(done));
                    assert(placeholder_names(done2) == placeholder_names(done).push(name_text));
                    assert(names_view(slots@) =~= seq![None] + placeholder_names(done2));
                    done = done2;
                }
                i = end;
                lit = end;
            },
            None => {
                i = i + 1;
            },
        }
    }
    let ghost last = Piece::Literal(path@.subrange(lit as int, n as int));
    assert(pieces_from(path@, i as int, lit as int) == seq![last]);
    assert(template_pieces(path@) =~= done.push(last));
    assert(done.push(last).drop_last() =~= done);
    let escaped_text = escape(path.substring_char(lit, n));
    buffer.append(escaped_text.as_str());
    buffer.append("$");
    assert(names_view(slots@) =~= seq![None] + placeholder_names(done.push(last)));
    assert(buffer@ =~= template_pattern(path@));
    Ok((buffer, slots))
}

/// A compiled route template: the anchored expression and the names of its
/// capture slots. Slot 0 is the whole match and never has a name.
#[derive(Debug)]
pub struct Pattern {
    regex: CompiledRegex,
    match_keys: Vec<Option<String>>,
}

impl Pattern {
    /// The source of the anchored expression.
    pub closed spec fn source(&self) -> Seq<char> {
        self.regex.source()
    }

    /// The names of the capture slots, slot 0 included.
    pub closed spec fn slots(&self) -> Seq<Option<Seq<char>>> {
        names_view(self.match_keys@)
    }

    /// Compiles a route template.
    ///
    /// Fails with `UnknownType` when a placeholder names a type that does not
    /// exist, and with `Rejected` when the expression engine refuses the
    /// compiled expression.
    pub fn new(prefix: &str) -> (r: Result<Pattern, PatternError>)
        ensures
            match r {
                Ok(p) => {
                    &&& unknown_tag(template_pieces(prefix@)) is None
                    &&& regex_compiles(template_pattern(prefix@))
                    &&& p.source() == template_pattern(prefix@)
                    &&& p.slots() == template_slots(prefix@)
                },
                Err(PatternError::UnknownType(t)) => unknown_tag(template_pieces(prefix@)) == Some(
                    t@,
                ),
                Err(PatternError::Rejected(_)) => unknown_tag(template_pieces(prefix@)) is None
                    && !regex_compiles(template_pattern(prefix@)),
            },
    {
        let (source, match_keys) = match regex_pattern(prefix) {
            Ok(built) => built,
            Err(e) => {
                return Err(e);
            },
        };
        match CompiledRegex::new(source.as_str()) {
            Ok(regex) => Ok(Pattern { regex, match_keys }),
            Err(e) => Err(PatternError::Rejected(e)),
        }
    }

    /// Whether the pattern matches `path`.
    pub fn matches(&self, path: &str) -> (r: bool)
        ensures
            r == regex_matches(self.source(), path@),
    {
        self.regex.is_match(path)
    }

    /// The compiled expression.
    pub fn regex(&self) -> (r: &CompiledRegex)
        ensures
            r.source() == self.source(),
    {
        &self.regex
    }

    /// The names of the capture slots, slot 0 included.
    pub fn match_keys(&self) -> (r: &Vec<Option<String>>)
        ensures
            names_view(r@) == self.slots(),
    {
        &self.match_keys
    }

    /// A copy of the names of the capture slots.
    pub fn duplicate_keys(&self) -> (r: Vec<Option<String>>)
        ensures
            names_view(r@) == self.slots(),
    {
        let mut keys: Vec<Option<String>> = Vec::new();
        let mut j: usize = 0;
        while j < self.match_keys.len()
            invariant
                j <= self.match_keys.len(),
                keys.len() == j,
                forall|k: int| 0 <= k < j ==> names_view(keys@)[k] == names_view(self.match_keys@)[k],
            decreases self.match_keys.len() - j,
        {
            let key = match &self.match_keys[j] {
                Some(s) => Some(s.clone()),
                None => None,
            };
            let ghost old_keys = keys@;
            assert(names_view(old_keys).len() == j);
            keys.push(key);
            proof {
                assert(keys@ == old_keys.push(key));
                assert forall|k: int| 0 <= k < j + 1 implies names_view(keys@)[k] == names_view(
                    self.match_keys@,
                )[k] by {
                    if k < j {
                        assert(keys@[k] == old_keys[k]);
                        assert(names_view(old_keys)[k] == names_view(self.match_keys@)[k]);
                    } else {
                        assert(keys@[k] == key);
                        assert(self.match_keys@[k] == self.match_keys[j as int]);
                    }
                }
            }
            j = j + 1;
        }
        assert(names_view(keys@) =~= names_view(self.match_keys@));
        keys
    }

    /// A second pattern with the same expression and slots.
    pub fn duplicate(&self) -> (r: Pattern)
        ensures
            r.source() == self.source(),
            r.slots() == self.slots(),
    {
        Pattern { regex: self.regex.duplicate(), match_keys: self.duplicate_keys() }
    }
}

} // verus!
