//! Finding the address of the client behind a request.
//!
//! The address can come from several places, and which of them can be
//! trusted depends on how the application is deployed. A [`RemoteAddress`]
//! lists the trusted sources in the order they are tried. This module picks
//! the candidate text out of the forwarding headers; reading the headers and
//! reading an address out of the text happen where the request lives.
use vstd::prelude::*;
use crate::engine::{regex_compiles, regex_matches, texts_view, CompiledRegex};
use crate::pattern::chars_of;

verus! {

/// Where an address may be read from.
#[derive(Debug, Clone)]
pub enum RemoteAddressSource {
    /// An entry of the `X-Forwarded-For` headers: from the left when the
    /// index is at least 0, from the right when negative (`-1` is the last).
    XForwardedFor(isize),
    /// The `for` parameter of an entry of the `Forwarded` headers, indexed
    /// the same way.
    Forwarded(isize),
    /// The first value of the named header that reads as an address.
    Header(String),
    /// The address of the connected peer.
    PeerAddress,
}

/// The sources an application trusts to tell the client's address, tried in
/// the order they were added.
#[derive(Debug, Clone)]
pub struct RemoteAddress {
    trusted_sources: Vec<RemoteAddressSource>,
}

impl RemoteAddress {
    /// The trusted sources, in the order they are tried.
    pub closed spec fn sources(&self) -> Seq<RemoteAddressSource> {
        self.trusted_sources@
    }

    /// No trusted source yet.
    pub fn new() -> (r: Self)
        ensures
            r.sources().len() == 0,
    {
        RemoteAddress { trusted_sources: Vec::new() }
    }

    /// The trusted sources, in the order they are tried.
    pub fn trusted_sources(&self) -> (r: &Vec<RemoteAddressSource>)
        ensures
            r@ == self.sources(),
    {
        &self.trusted_sources
    }

    /// Trusts the `X-Forwarded-For` entry at `index`; negative indices count
    /// from the right.
    pub fn trust_forwarded_for(&mut self, index: isize) -> (r: &mut Self)
        ensures
            r.sources() == old(self).sources().push(RemoteAddressSource::XForwardedFor(index)),
            *final(self) == *final(r),
    {
        self.trusted_sources.push(RemoteAddressSource::XForwardedFor(index));
        self
    }

    /// Trusts the `for` parameter of the `Forwarded` entry at `index`;
    /// negative indices count from the right.
    pub fn trust_forwarded(&mut self, index: isize) -> (r: &mut Self)
        ensures
            r.sources() == old(self).sources().push(RemoteAddressSource::Forwarded(index)),
            *final(self) == *final(r),
    {
        self.trusted_sources.push(RemoteAddressSource::Forwarded(index));
        self
    }

    /// Trusts the named header.
    pub fn trust_header(&mut self, header: &str) -> (r: &mut Self)
        ensures
            r.sources().len() == old(self).sources().len() + 1,
            r.sources().drop_last() == old(self).sources(),
            r.sources().last() matches RemoteAddressSource::Header(h) && h@ == header@,
            *final(self) == *final(r),
    {
        self.trusted_sources.push(RemoteAddressSource::Header(String::from_str(header)));
        assert(self.trusted_sources@.drop_last() =~= old(self).trusted_sources@);
        self
    }

    /// Trusts the `CF-Connecting-IP` header.
    pub fn trust_cloudflare_header(&mut self) -> (r: &mut Self)
        ensures
            r.sources().len() == old(self).sources().len() + 1,
            r.sources().drop_last() == old(self).sources(),
            r.sources().last() matches RemoteAddressSource::Header(h) && h@ == "CF-Connecting-IP"@,
            *final(self) == *final(r),
    {
        self.trust_header("CF-Connecting-IP")
    }

    /// Trusts the `X-Real-IP` header.
    pub fn trust_real_ip_header(&mut self) -> (r: &mut Self)
        ensures
            r.sources().len() == old(self).sources().len() + 1,
            r.sources().drop_last() == old(self).sources(),
            r.sources().last() matches RemoteAddressSource::Header(h) && h@ == "X-Real-IP"@,
            *final(self) == *final(r),
    {
        self.trust_header("X-Real-IP")
    }

    /// Trusts the `True-Client-IP` header.
    pub fn trust_client_ip_header(&mut self) -> (r: &mut Self)
        ensures
            r.sources().len() == old(self).sources().len() + 1,
            r.sources().drop_last() == old(self).sources(),
            r.sources().last() matches RemoteAddressSource::Header(h) && h@ == "True-Client-IP"@,
            *final(self) == *final(r),
    {
        self.trust_header("True-Client-IP")
    }

    /// Trusts the address of the connected peer.
    pub fn trust_peer_address(&mut self) -> (r: &mut Self)
        ensures
            r.sources() == old(self).sources().push(RemoteAddressSource::PeerAddress),
            *final(self) == *final(r),
    {
        self.trusted_sources.push(RemoteAddressSource::PeerAddress);
        self
    }
}

/// What `str::trim` leaves of a text.
pub uninterp spec fn trimmed(s: Seq<char>) -> Seq<char>;

/// Relies on `str::trim`, which removes leading and trailing whitespace.
#[verifier::external_body]
pub(crate) fn trim(s: &str) -> (r: &str)
    ensures
        r@ == trimmed(s@),
{
    s.trim()
}

/// The parts of `s` between the occurrences of `sep`, as `str::split` gives
/// them: an empty text has one empty part.
pub open spec fn split_on(s: Seq<char>, sep: char) -> Seq<Seq<char>>
    decreases s.len(),
{
    if s.len() == 0 {
        seq![Seq::empty()]
    } else {
        let prev = split_on(s.drop_last(), sep);
        if s.last() == sep {
            prev.push(Seq::empty())
        } else {
            prev.update(prev.len() - 1, prev.last().push(s.last()))
        }
    }
}

/// Splits `s` at every `sep`.
pub fn split_text(s: &str, sep: char) -> (r: Vec<String>)
    ensures
        texts_view(r@) == split_on(s@, sep),
{
    let chars = chars_of(s);
    let n = chars.len();
    let mut parts: Vec<String> = Vec::new();
    let mut start: usize = 0;
    let mut i: usize = 0;
    assert(s@.take(0) =~= Seq::<char>::empty());
    assert(texts_view(parts@).push(s@.subrange(0, 0)) =~= split_on(s@.take(0), sep));
    while i < n
        invariant
            chars@ == s@,
            n == chars.len(),
            start <= i <= n,
            texts_view(parts@).push(s@.subrange(start as int, i as int)) == split_on(s@.take(i as int), sep),
        decreases n - i,
    {
        let ghost prefix = s@.take(i as int);
        assert(s@.take(i + 1).drop_last() =~= prefix);
        if chars[i] == sep {
            assert(s@.take(i + 1).last() == sep);
            assert(split_on(s@.take(i + 1), sep) == split_on(prefix, sep).push(Seq::empty()));
            let part = String::from_str(s.substring_char(start, i));
            let ghost old_parts = parts@;
            parts.push(part);
            assert(texts_view(parts@) =~= texts_view(old_parts).push(part@));
            start = i + 1;
            i = i + 1;
            assert(s@.subrange(start as int, i as int) =~= Seq::<char>::empty());
            assert(texts_view(parts@).push(s@.subrange(start as int, i as int)) =~= split_on(
                s@.take(i as int),
                sep,
            ));
        } else {
            let ghost last = s@.subrange(start as int, i as int);
            i = i + 1;
            assert(s@.subrange(start as int, i as int) =~= last.push(s@[i - 1]));
            assert(texts_view(parts@).push(s@.subrange(start as int, i as int)) =~= split_on(
                s@.take(i as int),
                sep,
            ));
        }
    }
    let ghost old_parts = parts@;
    let part = String::from_str(s.substring_char(start, n));
    parts.push(part);
    assert(s@.take(n as int) =~= s@);
    assert(texts_view(parts@) =~= texts_view(old_parts).push(part@));
    parts
}

/// Which position an index selects in a list of `len` items: counted from
/// the left when at least 0, from the right when negative.
pub open spec fn pick_index(len: int, index: int) -> Option<int> {
    if index < 0 {
        if index == isize::MIN || len + index < 0 {
            None
        } else {
            Some(len + index)
        }
    } else if index < len {
        Some(index)
    } else {
        None
    }
}

/// Which position `index` selects in a list of `len` items.
pub fn pick(len: usize, index: isize) -> (r: Option<usize>)
    ensures
        match pick_index(len as int, index as int) {
            Some(i) => r == Some(i as usize),
            None => r is None,
        },
{
    if index < 0 {
        if index == isize::MIN {
            return None;
        }
        let back = ((0 - index) as usize) - 1;
        if back < len {
            Some(len - 1 - back)
        } else {
            None
        }
    } else {
        let i = index as usize;
        if i < len {
            Some(i)
        } else {
            None
        }
    }
}

/// The trimmed parts of a header value split at commas.
pub open spec fn trimmed_parts(value: Seq<char>) -> Seq<Seq<char>> {
    split_on(value, ',').map_values(|p: Seq<char>| trimmed(p))
}

/// The `X-Forwarded-For` entries of all header values, in order.
pub open spec fn forwarded_for_entries(values: Seq<Seq<char>>) -> Seq<Seq<char>>
    decreases values.len(),
{
    if values.len() == 0 {
        Seq::empty()
    } else {
        forwarded_for_entries(values.drop_last()) + trimmed_parts(values.last())
    }
}

/// The entry at `index` of a list, if the index selects one.
pub open spec fn entry_at(entries: Seq<Seq<char>>, index: int) -> Option<Seq<char>> {
    match pick_index(entries.len() as int, index) {
        Some(i) => Some(entries[i]),
        None => None,
    }
}

/// The view of an optional owned text.
pub open spec fn owned_view(o: Option<String>) -> Option<Seq<char>> {
    match o {
        Some(s) => Some(s@),
        None => None,
    }
}

/// Appends the trimmed comma-separated parts of `value` to `entries`.
fn push_trimmed_parts(entries: &mut Vec<String>, value: &str)
    ensures
        texts_view(final(entries)@) == texts_view(old(entries)@) + trimmed_parts(value@),
{
    let parts = split_text(value, ',');
    let ghost start = texts_view(entries@);
    let mut j: usize = 0;
    while j < parts.len()
        invariant
            j <= parts.len(),
            texts_view(parts@) == split_on(value@, ','),
            texts_view(entries@) == start + trimmed_parts(value@).take(j as int),
        decreases parts.len() - j,
    {
        let piece = String::from_str(trim(parts[j].as_str()));
        let ghost before = entries@;
        entries.push(piece);
        proof {
            assert(texts_view(entries@) =~= texts_view(before).push(piece@));
            assert(trimmed_parts(value@)[j as int] == trimmed(texts_view(parts@)[j as int]));
            assert(trimmed_parts(value@).take(j + 1) =~= trimmed_parts(value@).take(j as int).push(
                trimmed_parts(value@)[j as int],
            ));
        }
        j = j + 1;
    }
    assert(trimmed_parts(value@).take(j as int) =~= trimmed_parts(value@));
}

/// The text of the `X-Forwarded-For` entry that `index` selects among the
/// entries of all the header's values, read left to right; each value is a
/// comma-separated list, and each entry is trimmed.
pub fn x_forwarded_for_header(values: &Vec<String>, index: isize) -> (r: Option<String>)
    ensures
        owned_view(r) == entry_at(forwarded_for_entries(texts_view(values@)), index as int),
{
    let mut entries: Vec<String> = Vec::new();
    let mut i: usize = 0;
    while i < values.len()
        invariant
            i <= values.len(),
            texts_view(entries@) == forwarded_for_entries(texts_view(values@).take(i as int)),
        decreases values.len() - i,
    {
        push_trimmed_parts(&mut entries, values[i].as_str());
        proof {
            let vs = texts_view(values@);
            assert(vs.take(i + 1).drop_last() =~= vs.take(i as int));
            assert(vs.take(i + 1).last() == values@[i as int]@);
        }
        i = i + 1;
    }
    assert(texts_view(values@).take(i as int) =~= texts_view(values@));
    match pick(entries.len(), index) {
        Some(k) => Some(entries[k].clone()),
        None => None,
    }
}

/// The position of the first `c` in `s` at or after `i`.
pub open spec fn first_index_from(s: Seq<char>, c: char, i: int) -> Option<int>
    decreases s.len() - i,
{
    if i < 0 || i >= s.len() {
        None
    } else if s[i] == c {
        Some(i)
    } else {
        first_index_from(s, c, i + 1)
    }
}

/// `s` split at its first `=` into a key and a value.
pub open spec fn key_value(s: Seq<char>) -> Option<(Seq<char>, Seq<char>)> {
    match first_index_from(s, '=', 0) {
        Some(i) => Some((s.take(i), s.skip(i + 1))),
        None => None,
    }
}

/// The source of the expression that recognises the `for` parameter name,
/// in any letter case.
pub open spec fn for_word() -> Seq<char> {
    "(?i)^for$"@
}

/// The value of the first parameter, from part `j` on, whose name the
/// expression `word` matches; each part is trimmed, and a part without `=`
/// is no parameter.
pub open spec fn for_param_from(parts: Seq<Seq<char>>, word: Seq<char>, j: int) -> Option<Seq<char>>
    decreases parts.len() - j,
{
    if j < 0 || j >= parts.len() {
        None
    } else {
        match key_value(trimmed(parts[j])) {
            Some((k, v)) => if regex_matches(word, k) {
                Some(v)
            } else {
                for_param_from(parts, word, j + 1)
            },
            None => for_param_from(parts, word, j + 1),
        }
    }
}

/// The value of the `for` parameter of one `;`-separated `Forwarded` entry.
pub open spec fn for_param(entry: Seq<char>, word: Seq<char>) -> Option<Seq<char>> {
    for_param_from(split_on(entry, ';'), word, 0)
}

/// The `for` values of a list of entries, skipping entries that have none.
pub open spec fn for_values(entries: Seq<Seq<char>>, word: Seq<char>) -> Seq<Seq<char>>
    decreases entries.len(),
{
    if entries.len() == 0 {
        Seq::empty()
    } else {
        let prev = for_values(entries.drop_last(), word);
        match for_param(entries.last(), word) {
            Some(v) => prev.push(v),
            None => prev,
        }
    }
}

/// The `for` values of the entries of all `Forwarded` header values, in order.
pub open spec fn forwarded_entries(values: Seq<Seq<char>>, word: Seq<char>) -> Seq<Seq<char>>
    decreases values.len(),
{
    if values.len() == 0 {
        Seq::empty()
    } else {
        forwarded_entries(values.drop_last(), word) + for_values(trimmed_parts(values.last()), word)
    }
}

/// Splits `s` at its first `=` into a key and a value.
pub fn split_key_value(s: &str) -> (r: Option<(String, String)>)
    ensures
        match key_value(s@) {
            Some((k, v)) => r matches Some((rk, rv)) && rk@ == k && rv@ == v,
            None => r is None,
        },
{
    let chars = chars_of(s);
    let n = chars.len();
    let mut i: usize = 0;
    while i < n
        invariant
            chars@ == s@,
            n == chars.len(),
            i <= n,
            first_index_from(s@, '=', 0) == first_index_from(s@, '=', i as int),
        decreases n - i,
    {
        if chars[i] == '=' {
            let key = String::from_str(s.substring_char(0, i));
            let value = String::from_str(s.substring_char(i + 1, n));
            assert(s@.subrange(0, i as int) =~= s@.take(i as int));
            assert(s@.subrange(i + 1, n as int) =~= s@.skip(i + 1));
            return Some((key, value));
        }
        i = i + 1;
    }
    None
}

/// The value of the `for` parameter of one `Forwarded` entry, the name being
/// recognised by `word`.
fn for_parameter(entry: &str, word: &CompiledRegex) -> (r: Option<String>)
    ensures
        owned_view(r) == for_param(entry@, word.source()),
{
    let parts = split_text(entry, ';');
    let mut j: usize = 0;
    while j < parts.len()
        invariant
            j <= parts.len(),
            texts_view(parts@) == split_on(entry@, ';'),
            for_param(entry@, word.source()) == for_param_from(texts_view(parts@), word.source(), j as int),
        decreases parts.len() - j,
    {
        assert(texts_view(parts@)[j as int] == parts@[j as int]@);
        match split_key_value(trim(parts[j].as_str())) {
            Some((key, value)) => {
                if word.is_match(key.as_str()) {
                    return Some(value);
                }
            },
            None => {},
        }
        j = j + 1;
    }
    None
}

/// Appends the `for` values of the comma-separated entries of `value`.
fn push_for_values(found: &mut Vec<String>, value: &str, word: &CompiledRegex)
    ensures
        texts_view(final(found)@) == texts_view(old(found)@) + for_values(trimmed_parts(value@), word.source()),
{
    let parts = split_text(value, ',');
    let ghost start = texts_view(found@);
    let ghost entries = trimmed_parts(value@);
    let mut j: usize = 0;
    assert(entries.take(0) =~= Seq::<Seq<char>>::empty());
    assert(start + for_values(entries.take(0), word.source()) =~= start);
    while j < parts.len()
        invariant
            j <= parts.len(),
            texts_view(parts@) == split_on(value@, ','),
            entries == trimmed_parts(value@),
            texts_view(found@) == start + for_values(entries.take(j as int), word.source()),
        decreases parts.len() - j,
    {
        let entry = trim(parts[j].as_str());
        assert(entries[j as int] == entry@);
        assert(entries.take(j + 1).drop_last() =~= entries.take(j as int));
        let ghost before = found@;
        match for_parameter(entry, word) {
            Some(v) => {
                found.push(v);
                assert(texts_view(found@) =~= texts_view(before).push(v@));
            },
            None => {},
        }
        j = j + 1;
    }
    assert(entries.take(j as int) =~= entries);
}

/// The text of the `for` parameter of the `Forwarded` entry that `index`
/// selects, among the entries of all the header's values that have one.
/// `None` as well when the expression that recognises the parameter name
/// cannot be compiled.
pub fn forwarded_header(values: &Vec<String>, index: isize) -> (r: Option<String>)
    ensures
        regex_compiles(for_word()) ==> owned_view(r) == entry_at(
            forwarded_entries(texts_view(values@), for_word()),
            index as int,
        ),
        !regex_compiles(for_word()) ==> r is None,
{
    let word = match CompiledRegex::new("(?i)^for$") {
        Ok(w) => w,
        Err(_) => {
            return None;
        },
    };
    let mut found: Vec<String> = Vec::new();
    let mut i: usize = 0;
    while i < values.len()
        invariant
            i <= values.len(),
            word.source() == for_word(),
            texts_view(found@) == forwarded_entries(texts_view(values@).take(i as int), for_word()),
        decreases values.len() - i,
    {
        push_for_values(&mut found, values[i].as_str(), &word);
        proof {
            let vs = texts_view(values@);
            assert(vs.take(i + 1).drop_last() =~= vs.take(i as int));
            assert(vs.take(i + 1).last() == values@[i as int]@);
        }
        i = i + 1;
    }
    assert(texts_view(values@).take(i as int) =~= texts_view(values@));
    match pick(found.len(), index) {
        Some(k) => Some(found[k].clone()),
        None => None,
    }
}

} // verus!
