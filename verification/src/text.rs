//! Character-level text operations on which the property line grammar is built.
//!
//! Every executable function here works on `&str` and is specified over the
//! sequence of characters that the string denotes.

use vstd::prelude::*;
use vstd::std_specs::iter::IteratorSpec;
use vstd::string::StringExecFns;

verus! {

/// A carriage return or a line feed.
pub open spec fn is_line_break(c: char) -> bool {
    c == '\r' || c == '\n'
}

/// The predicate "is not a line break", as a value that `Seq::filter` takes.
pub open spec fn not_line_break() -> spec_fn(char) -> bool {
    |c: char| !is_line_break(c)
}

/// `s` with every carriage return and line feed taken out; all other characters
/// stay, in their order.
pub open spec fn strip_line_breaks(s: Seq<char>) -> Seq<char> {
    s.filter(not_line_break())
}

/// No character of `s` is a line break.
pub open spec fn has_no_line_break(s: Seq<char>) -> bool {
    forall|i: int| 0 <= i < s.len() ==> !is_line_break(#[trigger] s[i])
}

/// Stripping a prefix that is one character longer either keeps that character
/// or drops it, and changes nothing before it.
pub proof fn lemma_strip_step(s: Seq<char>, i: int)
    requires
        0 <= i < s.len(),
    ensures
        strip_line_breaks(s.take(i + 1)) == if is_line_break(s[i]) {
            strip_line_breaks(s.take(i))
        } else {
            strip_line_breaks(s.take(i)).push(s[i])
        },
{
    reveal(Seq::filter);
    assert(s.take(i + 1).drop_last() =~= s.take(i));
}

/// Text without line breaks is left as it is.
pub proof fn lemma_strip_identity(s: Seq<char>)
    requires
        has_no_line_break(s),
    ensures
        strip_line_breaks(s) == s,
    decreases s.len(),
{
    reveal(Seq::filter);
    if s.len() > 0 {
        assert(!is_line_break(s[s.len() - 1]));
        lemma_strip_identity(s.drop_last());
        assert(s.drop_last().push(s.last()) =~= s);
    }
}

/// Stripped text holds no line break.
pub proof fn lemma_strip_has_no_line_break(s: Seq<char>)
    ensures
        has_no_line_break(strip_line_breaks(s)),
    decreases s.len(),
{
    reveal(Seq::filter);
    if s.len() > 0 {
        lemma_strip_has_no_line_break(s.drop_last());
    }
}

/// Copies `s` without its carriage returns and line feeds.
pub fn remove_line_breaks(s: &str) -> (out: String)
    ensures
        out@ == strip_line_breaks(s@),
{
    let n: usize = s.unicode_len();
    let mut out = String::new();
    let mut start: usize = 0;
    let mut i: usize = 0;
    proof {
        reveal(Seq::filter);
        assert(s@.take(0) =~= Seq::<char>::empty());
        assert(s@.subrange(0, 0) =~= Seq::<char>::empty());
    }
    for c in it: s.chars()
        invariant
            i == it.index(),
            start <= i <= n,
            n == s@.len(),
            it.seq() == s@,
            out@ + s@.subrange(start as int, i as int) == strip_line_breaks(s@.take(i as int)),
    {
        proof {
            lemma_strip_step(s@, i as int);
        }
        if c == '\r' || c == '\n' {
            out.append(s.substring_char(start, i));
            start = i + 1;
            proof {
                assert(s@.subrange(start as int, start as int) =~= Seq::<char>::empty());
            }
        } else {
            proof {
                assert(s@.subrange(start as int, i + 1) =~= s@.subrange(start as int, i as int).push(
                    s@[i as int],
                ));
            }
        }
        i = i + 1;
    }
    out.append(s.substring_char(start, n));
    proof {
        assert(s@.take(n as int) =~= s@);
    }
    out
}

/// The position of the first `c` in `s`, or the length of `s` where `s` holds
/// no `c`.
pub open spec fn first_index(s: Seq<char>, c: char) -> nat
    decreases s.len(),
{
    if s.len() == 0 || s[0] == c {
        0
    } else {
        1 + first_index(s.drop_first(), c)
    }
}

/// `s` cut at its first `c`: what stands before it and what stands after it.
/// `None` where `s` holds no `c`. Later occurrences of `c` stay in the second part.
pub open spec fn split_first(s: Seq<char>, c: char) -> Option<(Seq<char>, Seq<char>)> {
    let i = first_index(s, c) as int;
    if i < s.len() {
        Some((s.take(i), s.skip(i + 1)))
    } else {
        None
    }
}

/// What `first_index` finds: no `c` stands before it, and a `c` stands at it
/// unless `s` holds none.
pub proof fn lemma_first_index(s: Seq<char>, c: char)
    ensures
        first_index(s, c) <= s.len(),
        forall|j: int| 0 <= j < first_index(s, c) ==> s[j] != c,
        first_index(s, c) < s.len() ==> s[first_index(s, c) as int] == c,
        first_index(s, c) == s.len() <==> !s.contains(c),
    decreases s.len(),
{
    if s.len() == 0 || s[0] == c {
    } else {
        let rest = s.drop_first();
        lemma_first_index(rest, c);
        let i = first_index(s, c);
        assert forall|j: int| 0 <= j < i implies s[j] != c by {
            if j > 0 {
                assert(s[j] == rest[j - 1]);
            }
        }
        if i < s.len() {
            assert(s[i as int] == rest[i - 1]);
        }
        if rest.contains(c) {
            let k = choose|k: int| 0 <= k < rest.len() && rest[k] == c;
            assert(s[k + 1] == c);
        }
        if s.contains(c) {
            let k = choose|k: int| 0 <= k < s.len() && s[k] == c;
            assert(rest[k - 1] == c);
        }
    }
}

/// An index is the first index of `c` as soon as `c` stands there and nowhere
/// before.
pub proof fn lemma_first_index_is(s: Seq<char>, c: char, i: int)
    requires
        0 <= i <= s.len(),
        forall|j: int| 0 <= j < i ==> s[j] != c,
        i < s.len() ==> s[i] == c,
    ensures
        first_index(s, c) == i,
{
    lemma_first_index(s, c);
    let f = first_index(s, c) as int;
    if f < i {
        assert(s[f] != c);
    } else if i < f {
        assert(s[i] != c);
    }
}

/// Cuts `s` at its first `sep`. The two parts are slices of `s`.
pub fn split_once<'a>(s: &'a str, sep: char) -> (parts: Option<(&'a str, &'a str)>)
    ensures
        match parts {
            Some((head, tail)) => split_first(s@, sep) == Some((head@, tail@)),
            None => split_first(s@, sep) is None,
        },
{
    let n: usize = s.unicode_len();
    let mut i: usize = 0;
    for c in it: s.chars()
        invariant
            i == it.index(),
            i <= n,
            n == s@.len(),
            it.seq() == s@,
            forall|j: int| 0 <= j < i ==> s@[j] != sep,
    {
        if c == sep {
            proof {
                lemma_first_index_is(s@, sep, i as int);
            }
            let head = s.substring_char(0, i);
            let tail = s.substring_char(i + 1, n);
            return Some((head, tail));
        }
        i = i + 1;
    }
    proof {
        lemma_first_index_is(s@, sep, n as int);
    }
    None
}

/// `s` cut at every `sep`: the pieces between the separators, in order. There is
/// always at least one piece; text without a separator is its own single piece.
pub open spec fn split_all(s: Seq<char>, sep: char) -> Seq<Seq<char>>
    decreases s.len(),
{
    match split_first(s, sep) {
        Some((head, tail)) => seq![head] + split_all(tail, sep),
        None => seq![s],
    }
}

/// The pieces put together again with one `sep` between neighbours.
pub open spec fn join(parts: Seq<Seq<char>>, sep: char) -> Seq<char>
    decreases parts.len(),
{
    if parts.len() == 0 {
        Seq::empty()
    } else if parts.len() == 1 {
        parts[0]
    } else {
        parts[0] + seq![sep] + join(parts.drop_first(), sep)
    }
}

/// The character sequence that an optional string slice denotes, if there is one.
pub open spec fn option_view(text: Option<&str>) -> Option<Seq<char>> {
    match text {
        Some(text) => Some(text@),
        None => None,
    }
}

/// The character sequences that a sequence of string slices denotes.
pub open spec fn views_of(parts: Seq<&str>) -> Seq<Seq<char>> {
    parts.map_values(|p: &str| p@)
}

/// Splitting yields at least one piece, and no piece holds the separator.
pub proof fn lemma_split_all_pieces(s: Seq<char>, sep: char)
    ensures
        split_all(s, sep).len() >= 1,
        forall|k: int|
            0 <= k < split_all(s, sep).len() ==> !(#[trigger] split_all(s, sep)[k]).contains(sep),
    decreases s.len(),
{
    lemma_first_index(s, sep);
    match split_first(s, sep) {
        Some((head, tail)) => {
            lemma_split_all_pieces(tail, sep);
            if head.contains(sep) {
                let k = choose|k: int| 0 <= k < head.len() && head[k] == sep;
                assert(s[k] == sep);
            }
        },
        None => {},
    }
}

/// Joining what `split_all` produced gives the text back.
pub proof fn lemma_join_split(s: Seq<char>, sep: char)
    ensures
        join(split_all(s, sep), sep) == s,
    decreases s.len(),
{
    lemma_first_index(s, sep);
    match split_first(s, sep) {
        Some((head, tail)) => {
            lemma_join_split(tail, sep);
            lemma_split_all_pieces(tail, sep);
            let parts = split_all(s, sep);
            assert(parts.drop_first() =~= split_all(tail, sep));
            assert(head + seq![sep] + tail =~= s);
        },
        None => {},
    }
}

/// Splitting a joined text gives the pieces back, provided there is at least one
/// piece and none of them holds the separator.
pub proof fn lemma_split_join(parts: Seq<Seq<char>>, sep: char)
    requires
        parts.len() >= 1,
        forall|k: int| 0 <= k < parts.len() ==> !(#[trigger] parts[k]).contains(sep),
    ensures
        split_all(join(parts, sep), sep) == parts,
    decreases parts.len(),
{
    let s = join(parts, sep);
    let head = parts[0];
    assert(!head.contains(sep));
    if parts.len() == 1 {
        lemma_first_index(s, sep);
        assert(split_all(s, sep) =~= parts);
    } else {
        let rest = parts.drop_first();
        assert forall|k: int| 0 <= k < rest.len() implies !(#[trigger] rest[k]).contains(sep) by {
            assert(rest[k] == parts[k + 1]);
        }
        lemma_split_join(rest, sep);
        let tail = join(rest, sep);
        assert(s == head + seq![sep] + tail);
        assert forall|j: int| 0 <= j < head.len() implies s[j] != sep by {
            assert(s[j] == head[j]);
        }
        assert(s[head.len() as int] == sep);
        lemma_first_index_is(s, sep, head.len() as int);
        assert(s.take(head.len() as int) =~= head);
        assert(s.skip(head.len() as int + 1) =~= tail);
        assert(seq![head] + rest =~= parts);
    }
}

/// Joining one more piece appends a separator and the piece.
pub proof fn lemma_join_push(parts: Seq<Seq<char>>, last: Seq<char>, sep: char)
    requires
        parts.len() >= 1,
    ensures
        join(parts.push(last), sep) == join(parts, sep) + seq![sep] + last,
    decreases parts.len(),
{
    let all = parts.push(last);
    if parts.len() == 1 {
        assert(all.drop_first() =~= seq![last]);
        assert(join(all.drop_first(), sep) == last);
    } else {
        lemma_join_push(parts.drop_first(), last, sep);
        assert(all.drop_first() =~= parts.drop_first().push(last));
        assert(join(all, sep) =~= join(parts, sep) + seq![sep] + last);
    }
}

/// A character that is not the separator and stands in no piece does not stand
/// in the joined text either.
pub proof fn lemma_join_lacks(parts: Seq<Seq<char>>, sep: char, c: char)
    requires
        c != sep,
        forall|k: int| 0 <= k < parts.len() ==> !(#[trigger] parts[k]).contains(c),
    ensures
        !join(parts, sep).contains(c),
    decreases parts.len(),
{
    let s = join(parts, sep);
    if parts.len() == 0 {
    } else if parts.len() == 1 {
        assert(!parts[0].contains(c));
    } else {
        let rest = parts.drop_first();
        assert forall|k: int| 0 <= k < rest.len() implies !(#[trigger] rest[k]).contains(c) by {
            assert(rest[k] == parts[k + 1]);
        }
        lemma_join_lacks(rest, sep, c);
        assert(!parts[0].contains(c));
        if s.contains(c) {
            let j = choose|j: int| 0 <= j < s.len() && s[j] == c;
            let head = parts[0];
            let tail = join(rest, sep);
            if j < head.len() {
                assert(head[j] == c);
            } else if j > head.len() {
                assert(tail[j - head.len() - 1] == c);
            }
        }
    }
}

/// Cuts `s` at every `sep`. The pieces are slices of `s`, in order.
pub fn split<'a>(s: &'a str, sep: char) -> (parts: Vec<&'a str>)
    ensures
        views_of(parts@) == split_all(s@, sep),
{
    let mut parts: Vec<&'a str> = Vec::new();
    let mut rest: &'a str = s;
    proof {
        assert(views_of(parts@) =~= Seq::<Seq<char>>::empty());
        assert(Seq::<Seq<char>>::empty() + split_all(rest@, sep) =~= split_all(s@, sep));
    }
    loop
        invariant
            views_of(parts@) + split_all(rest@, sep) == split_all(s@, sep),
        decreases rest@.len(),
    {
        let ghost before = parts@;
        match split_once(rest, sep) {
            Some((head, tail)) => {
                parts.push(head);
                proof {
                    lemma_first_index(rest@, sep);
                    assert(views_of(parts@) =~= views_of(before).push(head@));
                    assert(views_of(before).push(head@) + split_all(tail@, sep) =~= views_of(before)
                        + split_all(rest@, sep));
                }
                rest = tail;
            },
            None => {
                parts.push(rest);
                proof {
                    assert(views_of(parts@) =~= views_of(before).push(rest@));
                    assert(views_of(before).push(rest@) =~= views_of(before) + split_all(
                        rest@,
                        sep,
                    ));
                }
                return parts;
            },
        }
    }
}

/// The upper-case form of an ASCII lower-case letter; every other character is
/// left as it is.
pub open spec fn upper_char(c: char) -> char {
    if 'a' <= c && c <= 'z' {
        ((c as u8) - 32) as char
    } else {
        c
    }
}

/// `s` with each ASCII lower-case letter replaced by its upper-case form.
pub open spec fn upper(s: Seq<char>) -> Seq<char> {
    s.map_values(|c: char| upper_char(c))
}

/// Computes `upper_char`.
pub fn to_upper_char(c: char) -> (r: char)
    ensures
        r == upper_char(c),
{
    if 'a' <= c && c <= 'z' {
        let b: u8 = c as u8;
        (b - 32) as char
    } else {
        c
    }
}

/// The characters of `s`, each ASCII lower-case letter in its upper-case form.
pub fn to_upper(s: &str) -> (chars: Vec<char>)
    ensures
        chars@ == upper(s@),
{
    let mut chars: Vec<char> = Vec::new();
    for c in it: s.chars()
        invariant
            it.seq() == s@,
            chars@ == upper(s@.take(it.index() as int)),
    {
        let ghost before = chars@;
        chars.push(to_upper_char(c));
        proof {
            let i = it.index() as int;
            assert(s@.take(i + 1) =~= s@.take(i).push(s@[i]));
            assert(upper(s@.take(i + 1)) =~= before.push(upper_char(s@[i])));
        }
    }
    proof {
        assert(s@.take(s@.len() as int) =~= s@);
    }
    chars
}

/// Whether `s` spells exactly the characters in `chars`.
pub fn same_chars(s: &str, chars: &Vec<char>) -> (same: bool)
    ensures
        same == (s@ == chars@),
{
    let mut i: usize = 0;
    for c in it: s.chars()
        invariant
            i == it.index(),
            it.seq() == s@,
            i <= chars@.len(),
            s@.take(i as int) == chars@.take(i as int),
    {
        if i >= chars.len() {
            return false;
        }
        if c != chars[i] {
            return false;
        }
        proof {
            assert(s@.take(i + 1) =~= s@.take(i as int).push(s@[i as int]));
            assert(chars@.take(i + 1) =~= chars@.take(i as int).push(chars@[i as int]));
        }
        i = i + 1;
    }
    proof {
        assert(s@.take(s@.len() as int) =~= s@);
        if i == chars@.len() {
            assert(chars@.take(i as int) =~= chars@);
        }
    }
    i == chars.len()
}

/// A character that frames a property line: the `:` before the value, the `;`
/// before a parameter, or a line break.
pub open spec fn is_framing(c: char) -> bool {
    c == ':' || c == ';' || is_line_break(c)
}

/// No character of `s` frames a property line.
pub open spec fn has_no_framing(s: Seq<char>) -> bool {
    forall|i: int| 0 <= i < s.len() ==> !is_framing(#[trigger] s[i])
}

/// Whether `s` is free of the characters that frame a property line.
pub fn is_free_of_framing(s: &str) -> (free: bool)
    ensures
        free == has_no_framing(s@),
{
    for c in it: s.chars()
        invariant
            it.seq() == s@,
            forall|j: int| 0 <= j < it.index() ==> !is_framing(#[trigger] s@[j]),
    {
        if c == ':' || c == ';' || c == '\r' || c == '\n' {
            return false;
        }
    }
    true
}

/// Whether `s` is free of line breaks.
pub fn is_free_of_line_breaks(s: &str) -> (free: bool)
    ensures
        free == has_no_line_break(s@),
{
    for c in it: s.chars()
        invariant
            it.seq() == s@,
            forall|j: int| 0 <= j < it.index() ==> !is_line_break(#[trigger] s@[j]),
    {
        if c == '\r' || c == '\n' {
            return false;
        }
    }
    true
}

} // verus!
