//! Text as sequences of characters: splitting on a separator, splitting into
//! words, joining path components.
//!
//! Every executable function here is specified over `Seq<char>`, the view of
//! `str` and `String`.

use vstd::prelude::*;
use vstd::std_specs::iter::IteratorSpec;
use vstd::string::StringExecFns;

verus! {

/// `String::push` of the standard library appends the character to the end
/// of the text.
pub assume_specification[ String::push ](s: &mut String, c: char)
    ensures
        final(s)@ == old(s)@.push(c),
;

/// The six ASCII white-space characters: space, tab, line feed, vertical tab,
/// form feed and carriage return.
pub open spec fn is_space(c: char) -> bool {
    c == ' ' || c == '\t' || c == '\n' || c == '\x0b' || c == '\x0c' || c == '\r'
}

/// What separates the pieces of a text: one character, or any white space.
#[derive(Clone, Copy, Debug, PartialEq, Eq)]
pub enum Separator {
    Char(char),
    Space,
}

impl Separator {
    /// Whether `c` separates.
    pub open spec fn matches(self, c: char) -> bool {
        match self {
            Separator::Char(sep) => c == sep,
            Separator::Space => is_space(c),
        }
    }

    /// Whether `c` separates.
    pub fn separates(&self, c: char) -> (r: bool)
        ensures
            r == self.matches(c),
    {
        match self {
            Separator::Char(sep) => c == *sep,
            Separator::Space => c == ' ' || c == '\t' || c == '\n' || c == '\x0b' || c == '\x0c'
                || c == '\r',
        }
    }
}

/// The pieces of `s` between separators, empty pieces included. The result is
/// never empty: a text without separator is its own single piece, and `n`
/// separators give `n + 1` pieces.
pub open spec fn pieces(s: Seq<char>, sep: Separator) -> Seq<Seq<char>>
    decreases s.len(),
{
    if s.len() == 0 {
        seq![Seq::<char>::empty()]
    } else {
        let before = pieces(s.drop_last(), sep);
        if sep.matches(s.last()) {
            before.push(Seq::<char>::empty())
        } else {
            before.drop_last().push(before.last().push(s.last()))
        }
    }
}

/// The pieces of `s` between occurrences of the character `sep`.
pub open spec fn split_on(s: Seq<char>, sep: char) -> Seq<Seq<char>> {
    pieces(s, Separator::Char(sep))
}

/// Whether a text holds a character.
pub open spec fn filled() -> spec_fn(Seq<char>) -> bool {
    |w: Seq<char>| w.len() > 0
}

/// The maximal runs of characters of `s` that are not white space.
pub open spec fn words(s: Seq<char>) -> Seq<Seq<char>> {
    pieces(s, Separator::Space).filter(filled())
}

/// The lines of `s`: its pieces between line feeds.
pub open spec fn lines(s: Seq<char>) -> Seq<Seq<char>> {
    split_on(s, '\n')
}

/// `parts` written one after the other with `sep` between neighbours.
pub open spec fn join_with(parts: Seq<Seq<char>>, sep: char) -> Seq<char>
    decreases parts.len(),
{
    if parts.len() == 0 {
        Seq::<char>::empty()
    } else if parts.len() == 1 {
        parts[0]
    } else {
        join_with(parts.drop_last(), sep).push(sep) + parts.last()
    }
}

/// A text has at least one piece.
pub proof fn lemma_pieces_nonempty(s: Seq<char>, sep: Separator)
    ensures
        pieces(s, sep).len() >= 1,
    decreases s.len(),
{
    if s.len() > 0 {
        lemma_pieces_nonempty(s.drop_last(), sep);
    }
}

/// No piece holds a separator.
pub proof fn lemma_pieces_hold_no_separator(s: Seq<char>, sep: Separator)
    ensures
        forall|i: int, j: int|
            0 <= i < pieces(s, sep).len() && 0 <= j < pieces(s, sep)[i].len() ==> !sep.matches(
                #[trigger] pieces(s, sep)[i][j],
            ),
    decreases s.len(),
{
    if s.len() > 0 {
        lemma_pieces_nonempty(s.drop_last(), sep);
        lemma_pieces_hold_no_separator(s.drop_last(), sep);
    }
}

/// Joining the pieces with the separator gives the text back.
pub proof fn lemma_join_split(s: Seq<char>, sep: char)
    ensures
        join_with(split_on(s, sep), sep) == s,
    decreases s.len(),
{
    if s.len() > 0 {
        let t = s.drop_last();
        let before = split_on(t, sep);
        lemma_pieces_nonempty(t, Separator::Char(sep));
        lemma_join_split(t, sep);
        assert(s == t.push(s.last()));
        if s.last() == sep {
            let now = before.push(Seq::<char>::empty());
            assert(now.drop_last() == before);
            assert(join_with(now, sep) == join_with(before, sep).push(sep) + Seq::<char>::empty());
            assert(join_with(now, sep) == s);
        } else {
            let last = before.last().push(s.last());
            let now = before.drop_last().push(last);
            assert(now.drop_last() == before.drop_last());
            if before.len() == 1 {
                assert(join_with(before, sep) == before[0]);
                assert(join_with(now, sep) == last);
            } else {
                assert(join_with(before, sep) == join_with(before.drop_last(), sep).push(sep)
                    + before.last());
                assert(join_with(now, sep) == join_with(before.drop_last(), sep).push(sep) + last);
                assert(join_with(now, sep) == s);
            }
        }
    } else {
        assert(join_with(seq![Seq::<char>::empty()], sep) == Seq::<char>::empty());
    }
}

/// Appending a text without separator to `s` extends the last piece of `s`.
pub proof fn lemma_pieces_append_plain(s: Seq<char>, t: Seq<char>, sep: Separator)
    requires
        forall|j: int| 0 <= j < t.len() ==> !sep.matches(#[trigger] t[j]),
    ensures
        pieces(s + t, sep) == pieces(s, sep).drop_last().push(pieces(s, sep).last() + t),
    decreases t.len(),
{
    lemma_pieces_nonempty(s, sep);
    let p = pieces(s, sep);
    if t.len() == 0 {
        assert(s + t == s);
        assert(p.last() + t == p.last());
        assert(p.drop_last().push(p.last()) == p);
    } else {
        let t0 = t.drop_last();
        lemma_pieces_append_plain(s, t0, sep);
        assert((s + t).drop_last() == s + t0);
        assert((s + t).last() == t.last());
        let q = pieces(s + t0, sep);
        assert(q.drop_last() == p.drop_last());
        assert(q.last().push(t.last()) == p.last() + t);
    }
}

/// Appending a separator to `s` opens a new, empty piece.
pub proof fn lemma_pieces_append_separator(s: Seq<char>, c: char, sep: Separator)
    requires
        sep.matches(c),
    ensures
        pieces(s.push(c), sep) == pieces(s, sep).push(Seq::<char>::empty()),
{
    assert(s.push(c).drop_last() == s);
}

/// A text without separator is its own single piece.
pub proof fn lemma_pieces_of_plain(t: Seq<char>, sep: Separator)
    requires
        forall|j: int| 0 <= j < t.len() ==> !sep.matches(#[trigger] t[j]),
    ensures
        pieces(t, sep) == seq![t],
{
    lemma_pieces_append_plain(Seq::<char>::empty(), t, sep);
    assert(Seq::<char>::empty() + t == t);
    assert(pieces(Seq::<char>::empty(), sep) == seq![Seq::<char>::empty()]);
    assert(seq![Seq::<char>::empty()].drop_last().push(Seq::<char>::empty() + t) == seq![t]);
}

/// Joined parts are the first part, and where there are more, the separator
/// and the others joined.
pub proof fn lemma_join_front(parts: Seq<Seq<char>>, sep: char)
    requires
        parts.len() >= 1,
    ensures
        join_with(parts, sep) == if parts.len() == 1 {
            parts[0]
        } else {
            parts[0].push(sep) + join_with(parts.skip(1), sep)
        },
    decreases parts.len(),
{
    if parts.len() == 2 {
        assert(parts.drop_last().len() == 1 && parts.drop_last()[0] == parts[0]);
        assert(join_with(parts.drop_last(), sep) == parts[0]);
        assert(parts.skip(1).len() == 1 && parts.skip(1)[0] == parts[1]);
        assert(join_with(parts.skip(1), sep) == parts[1]);
        assert(parts.last() == parts[1]);
    } else if parts.len() > 2 {
        let front = parts.drop_last();
        lemma_join_front(front, sep);
        let tail = parts.skip(1);
        assert(front.skip(1) =~= tail.drop_last());
        assert(tail.last() == parts.last());
        assert(front[0] == parts[0]);
        assert(join_with(tail, sep) == join_with(tail.drop_last(), sep).push(sep) + tail.last());
        assert(join_with(parts, sep) =~= parts[0].push(sep) + join_with(tail, sep));
    }
}

/// The pieces of joined parts are the parts, where the joining character
/// separates and no part holds a separator.
pub proof fn lemma_pieces_of_join(parts: Seq<Seq<char>>, c: char, sep: Separator)
    requires
        parts.len() >= 1,
        sep.matches(c),
        forall|i: int, j: int|
            0 <= i < parts.len() && 0 <= j < parts[i].len() ==> !sep.matches(
                #[trigger] parts[i][j],
            ),
    ensures
        pieces(join_with(parts, c), sep) == parts,
    decreases parts.len(),
{
    if parts.len() == 1 {
        lemma_pieces_of_plain(parts[0], sep);
        assert(seq![parts[0]] == parts);
    } else {
        let front = parts.drop_last();
        assert forall|i: int, j: int|
            0 <= i < front.len() && 0 <= j < front[i].len() implies !sep.matches(
            #[trigger] front[i][j],
        ) by {
            assert(front[i][j] == parts[i][j]);
        }
        lemma_pieces_of_join(front, c, sep);
        let head = join_with(front, c);
        lemma_pieces_append_separator(head, c, sep);
        lemma_pieces_append_plain(head.push(c), parts.last(), sep);
        let opened = front.push(Seq::<char>::empty());
        assert(opened.drop_last() == front);
        assert(opened.last() + parts.last() == parts.last());
        assert(front.push(parts.last()) == parts);
    }
}

/// Splitting undoes joining, where no part holds the separator.
pub proof fn lemma_split_join(parts: Seq<Seq<char>>, sep: char)
    requires
        parts.len() >= 1,
        forall|i: int, j: int|
            0 <= i < parts.len() && 0 <= j < parts[i].len() ==> #[trigger] parts[i][j] != sep,
    ensures
        split_on(join_with(parts, sep), sep) == parts,
{
    lemma_pieces_of_join(parts, sep, Separator::Char(sep));
}

/// The words of joined words are the words: texts that are not empty and
/// hold no white space, joined by spaces.
pub proof fn lemma_words_of_join(parts: Seq<Seq<char>>)
    requires
        forall|i: int| 0 <= i < parts.len() ==> (#[trigger] parts[i]).len() > 0,
        forall|i: int, j: int|
            0 <= i < parts.len() && 0 <= j < parts[i].len() ==> !is_space(#[trigger] parts[i][j]),
    ensures
        words(join_with(parts, ' ')) == parts,
{
    if parts.len() == 0 {
        let none = Seq::<Seq<char>>::empty();
        assert(pieces(join_with(parts, ' '), Separator::Space) =~= none.push(
            Seq::<char>::empty(),
        ));
        none.lemma_filter_push(Seq::<char>::empty(), filled());
        none.lemma_filter_len(filled());
        assert(words(join_with(parts, ' ')) =~= parts);
    } else {
        lemma_pieces_of_join(parts, ' ', Separator::Space);
        lemma_filter_keeps_all(parts);
    }
}

/// A list of texts none of which is empty is left whole by the choice of its
/// non-empty texts.
proof fn lemma_filter_keeps_all(parts: Seq<Seq<char>>)
    requires
        forall|i: int| 0 <= i < parts.len() ==> (#[trigger] parts[i]).len() > 0,
    ensures
        parts.filter(filled()) == parts,
    decreases parts.len(),
{
    let keep = filled();
    if parts.len() == 0 {
        parts.lemma_filter_len(keep);
        assert(parts.filter(keep) =~= parts);
    } else {
        let front = parts.drop_last();
        assert forall|i: int| 0 <= i < front.len() implies (#[trigger] front[i]).len() > 0 by {
            assert(front[i] == parts[i]);
        }
        lemma_filter_keeps_all(front);
        assert(parts == front.push(parts.last()));
        front.lemma_filter_push(parts.last(), keep);
        assert(parts[parts.len() - 1].len() > 0);
    }
}

/// The characters of `s`, in order.
pub fn chars_of(s: &str) -> (out: Vec<char>)
    ensures
        out@ == s@,
{
    broadcast use vstd::string::group_string_axioms;

    let mut out: Vec<char> = Vec::new();
    let chars = s.chars();
    for c in it: chars
        invariant
            it.seq() == s@,
            out@ == s@.take(it.index()),
    {
        out.push(c);
    }
    assert(out@ == s@);
    out
}

/// Whether two texts hold the same characters.
pub fn same_text(a: &str, b: &str) -> (r: bool)
    ensures
        r == (a@ == b@),
{
    let x = chars_of(a);
    let y = chars_of(b);
    if x.len() != y.len() {
        return false;
    }
    let mut i: usize = 0;
    while i < x.len()
        invariant
            i <= x.len(),
            x.len() == y.len(),
            x@ == a@,
            y@ == b@,
            x@.take(i as int) == y@.take(i as int),
        decreases x.len() - i,
    {
        if x[i] != y[i] {
            assert(a@[i as int] != b@[i as int]);
            return false;
        }
        assert(x@.take(i + 1) == x@.take(i as int).push(x@[i as int]));
        assert(y@.take(i + 1) == y@.take(i as int).push(y@[i as int]));
        i += 1;
    }
    assert(x@ == x@.take(x.len() as int));
    assert(y@ == y@.take(y.len() as int));
    true
}

/// Whether `s` holds the character `c`.
pub fn holds_char(s: &str, c: char) -> (r: bool)
    ensures
        r == s@.contains(c),
{
    let chars = chars_of(s);
    let mut i: usize = 0;
    while i < chars.len()
        invariant
            i <= chars.len(),
            chars@ == s@,
            forall|k: int| 0 <= k < i ==> s@[k] != c,
        decreases chars.len() - i,
    {
        if chars[i] == c {
            assert(s@[i as int] == c);
            return true;
        }
        i += 1;
    }
    false
}

/// Whether `item` occurs in `list`.
pub fn has_text(list: &Vec<String>, item: &str) -> (r: bool)
    ensures
        r == list.deep_view().contains(item@),
{
    let mut i: usize = 0;
    while i < list.len()
        invariant
            i <= list.len(),
            forall|k: int| 0 <= k < i ==> list.deep_view()[k] != item@,
        decreases list.len() - i,
    {
        if same_text(list[i].as_str(), item) {
            assert(list.deep_view()[i as int] == item@);
            return true;
        }
        i += 1;
    }
    false
}

/// The pieces of `s` between separators (see [`pieces`]).
pub fn split_by(s: &str, sep: &Separator) -> (parts: Vec<String>)
    ensures
        parts.deep_view() == pieces(s@, *sep),
{
    let chars = chars_of(s);
    let mut parts: Vec<String> = Vec::new();
    let mut current = String::new();
    let mut i: usize = 0;
    while i < chars.len()
        invariant
            i <= chars.len(),
            chars@ == s@,
            parts.deep_view().push(current@) == pieces(s@.take(i as int), *sep),
        decreases chars.len() - i,
    {
        let c = chars[i];
        proof {
            assert(s@.take(i + 1).drop_last() == s@.take(i as int));
            let ghost before = parts.deep_view().push(current@);
            assert(before.drop_last() == parts.deep_view());
        }
        if sep.separates(c) {
            let ghost old_parts = parts.deep_view();
            parts.push(current);
            current = String::new();
            assert(parts.deep_view() == old_parts.push(parts.deep_view().last()));
        } else {
            current.push(c);
        }
        i += 1;
    }
    assert(s@.take(chars.len() as int) == s@);
    let ghost old_parts = parts.deep_view();
    parts.push(current);
    assert(parts.deep_view() == old_parts.push(parts.deep_view().last()));
    parts
}

/// The pieces of `s` between occurrences of `sep`, as `str::split` gives them.
pub fn split(s: &str, sep: char) -> (parts: Vec<String>)
    ensures
        parts.deep_view() == split_on(s@, sep),
        parts.len() >= 1,
{
    proof {
        lemma_pieces_nonempty(s@, Separator::Char(sep));
    }
    split_by(s, &Separator::Char(sep))
}

/// The words of `s`: its maximal runs of characters that are not white space.
pub fn split_words(s: &str) -> (out: Vec<String>)
    ensures
        out.deep_view() == words(s@),
{
    let all = split_by(s, &Separator::Space);
    let mut out: Vec<String> = Vec::new();
    let ghost keep = filled();
    let mut i: usize = 0;
    while i < all.len()
        invariant
            i <= all.len(),
            all.deep_view() == pieces(s@, Separator::Space),
            keep == filled(),
            out.deep_view() == all.deep_view().take(i as int).filter(keep),
        decreases all.len() - i,
    {
        proof {
            let ghost seen = all.deep_view().take(i as int);
            assert(all.deep_view().take(i + 1) == seen.push(all.deep_view()[i as int]));
            seen.lemma_filter_push(all.deep_view()[i as int], keep);
        }
        if !all[i].as_str().is_empty() {
            let ghost old_out = out.deep_view();
            out.push(all[i].clone());
            assert(out.deep_view() == old_out.push(all.deep_view()[i as int]));
        }
        i += 1;
    }
    assert(all.deep_view().take(all.len() as int) == all.deep_view());
    out
}

/// The character of the digit `d`.
pub open spec fn digit(d: int) -> char {
    (('0' as u8 + d) as u8) as char
}

/// The decimal digits of `n`, without leading zeros.
pub open spec fn natural(n: nat) -> Seq<char>
    decreases n,
{
    if n < 10 {
        seq![digit(n as int)]
    } else {
        natural(n / 10).push(digit((n % 10) as int))
    }
}

/// `n` in decimal notation, with a minus sign in front where it is negative.
pub open spec fn decimal(n: int) -> Seq<char> {
    if n < 0 {
        seq!['-'] + natural((-n) as nat)
    } else {
        natural(n as nat)
    }
}

/// Writes the decimal digits of `n` behind `out`.
fn push_natural(out: &mut String, n: u64)
    ensures
        final(out)@ == old(out)@ + natural(n as nat),
    decreases n,
{
    if n >= 10 {
        push_natural(out, n / 10);
    }
    let d: u8 = (n % 10) as u8;
    out.push((48u8 + d) as char);
    proof {
        assert('0' as u8 == 48u8);
        if n >= 10 {
            assert(out@ =~= old(out)@ + natural((n / 10) as nat).push(digit((n % 10) as int)));
        } else {
            assert(out@ =~= old(out)@ + seq![digit(n as int)]);
        }
    }
}

/// `n` in decimal notation (see [`decimal`]).
pub fn decimal_of(n: i32) -> (out: String)
    ensures
        out@ == decimal(n as int),
{
    let mut out = String::new();
    let wide: i64 = n as i64;
    if wide < 0 {
        out.push('-');
        push_natural(&mut out, (-wide) as u64);
        assert(out@ =~= seq!['-'] + natural((-n) as nat));
    } else {
        push_natural(&mut out, wide as u64);
        assert(out@ =~= natural(n as nat));
    }
    out
}

/// A copy of `list`.
pub fn copy_texts(list: &Vec<String>) -> (out: Vec<String>)
    ensures
        out.deep_view() == list.deep_view(),
{
    let mut out: Vec<String> = Vec::new();
    let mut i: usize = 0;
    while i < list.len()
        invariant
            i <= list.len(),
            out.deep_view() == list.deep_view().take(i as int),
        decreases list.len() - i,
    {
        let ghost before = out.deep_view();
        out.push(list[i].clone());
        assert(out.deep_view() =~= before.push(list.deep_view()[i as int]));
        assert(list.deep_view().take(i + 1) =~= before.push(list.deep_view()[i as int]));
        i += 1;
    }
    assert(list.deep_view().take(list.len() as int) =~= list.deep_view());
    out
}

/// Whether a text is another than `item`.
pub open spec fn other_than(item: Seq<char>) -> spec_fn(Seq<char>) -> bool {
    |t: Seq<char>| t != item
}

/// `list` without the texts equal to `item`.
pub open spec fn without(list: Seq<Seq<char>>, item: Seq<char>) -> Seq<Seq<char>> {
    list.filter(other_than(item))
}

/// What is left of a list without `item` is what the list holds other than
/// `item`; a list that does not hold `item` is left as it is.
pub proof fn lemma_without_lacks(list: Seq<Seq<char>>, item: Seq<char>)
    ensures
        forall|t: Seq<char>|
            #![trigger without(list, item).contains(t)]
            #![trigger list.contains(t)]
            without(list, item).contains(t) <==> list.contains(t) && t != item,
        !list.contains(item) ==> without(list, item) == list,
    decreases list.len(),
{
    let keep = other_than(item);
    if list.len() == 0 {
        list.lemma_filter_len(keep);
        assert(without(list, item) =~= list);
    } else {
        let front = list.drop_last();
        let last = list.last();
        lemma_without_lacks(front, item);
        assert(list == front.push(last));
        front.lemma_filter_push(last, keep);
        let left = without(list, item);
        assert(left == if last != item {
            without(front, item).push(last)
        } else {
            without(front, item)
        });
        let inner = without(front, item);
        assert forall|t: Seq<char>| left.contains(t) <==> list.contains(t) && t != item by {
            if left.contains(t) {
                let k = choose|k: int| 0 <= k < left.len() && left[k] == t;
                if last != item && k == left.len() - 1 {
                    assert(list[list.len() - 1] == t);
                } else {
                    assert(inner[k] == t);
                    assert(inner.contains(t));
                    assert(front.contains(t));
                    let m = choose|m: int| 0 <= m < front.len() && front[m] == t;
                    assert(list[m] == t);
                }
            }
            if list.contains(t) && t != item {
                let m = choose|m: int| 0 <= m < list.len() && list[m] == t;
                if m == list.len() - 1 {
                    assert(left[left.len() - 1] == t);
                } else {
                    assert(front[m] == t);
                    assert(front.contains(t));
                    assert(inner.contains(t));
                    let k = choose|k: int| 0 <= k < inner.len() && inner[k] == t;
                    assert(left[k] == t);
                }
            }
        }
        if !list.contains(item) {
            assert(list[list.len() - 1] == last);
            assert forall|t: Seq<char>| front.contains(t) implies list.contains(t) by {
                let m = choose|m: int| 0 <= m < front.len() && front[m] == t;
                assert(list[m] == t);
            }
        }
    }
}

/// `list` without the texts equal to `item` (see [`without`]).
pub fn drop_text(list: &Vec<String>, item: &str) -> (out: Vec<String>)
    ensures
        out.deep_view() == without(list.deep_view(), item@),
{
    let mut out: Vec<String> = Vec::new();
    let ghost keep = other_than(item@);
    let mut i: usize = 0;
    while i < list.len()
        invariant
            i <= list.len(),
            keep == other_than(item@),
            out.deep_view() == list.deep_view().take(i as int).filter(keep),
        decreases list.len() - i,
    {
        proof {
            let ghost seen = list.deep_view().take(i as int);
            assert(list.deep_view().take(i + 1) == seen.push(list.deep_view()[i as int]));
            seen.lemma_filter_push(list.deep_view()[i as int], keep);
        }
        if !same_text(list[i].as_str(), item) {
            let ghost before = out.deep_view();
            out.push(list[i].clone());
            assert(out.deep_view() == before.push(list.deep_view()[i as int]));
        }
        i += 1;
    }
    assert(list.deep_view().take(list.len() as int) == list.deep_view());
    out
}

/// `parts` written one after the other with `sep` between neighbours (see
/// [`join_with`]).
pub fn join_texts(parts: &Vec<String>, sep: char) -> (out: String)
    ensures
        out@ == join_with(parts.deep_view(), sep),
{
    let mut out = String::new();
    let mut i: usize = 0;
    assert(parts.deep_view().take(0) =~= Seq::<Seq<char>>::empty());
    while i < parts.len()
        invariant
            i <= parts.len(),
            out@ == join_with(parts.deep_view().take(i as int), sep),
        decreases parts.len() - i,
    {
        proof {
            let ghost next = parts.deep_view().take(i + 1);
            assert(next.drop_last() =~= parts.deep_view().take(i as int));
            assert(next.last() == parts.deep_view()[i as int]);
            if i == 0 {
                assert(out@ + next[0] =~= next[0]);
            }
        }
        if i > 0 {
            out.push(sep);
        }
        out.append(parts[i].as_str());
        i += 1;
    }
    assert(parts.deep_view().take(parts.len() as int) =~= parts.deep_view());
    out
}

/// Whether a path starts at the root.
pub open spec fn is_absolute(p: Seq<char>) -> bool {
    p.len() > 0 && p[0] == '/'
}

/// `rel` taken from the directory `base`: `rel` itself where it is absolute or
/// `base` is empty, else `base`, one `/` unless `base` ends in one, and `rel`.
pub open spec fn join_path(base: Seq<char>, rel: Seq<char>) -> Seq<char> {
    if is_absolute(rel) || base.len() == 0 {
        rel
    } else if base.last() == '/' {
        base + rel
    } else {
        base.push('/') + rel
    }
}

/// Whether `p` starts at the root.
pub fn absolute(p: &str) -> (r: bool)
    ensures
        r == is_absolute(p@),
{
    let chars = chars_of(p);
    chars.len() > 0 && chars[0] == '/'
}

/// `a` followed by `b`.
pub fn followed_by(a: &str, b: &str) -> (out: String)
    ensures
        out@ == a@ + b@,
{
    let mut out = a.to_owned();
    out.append(b);
    out
}

/// `rel` taken from the directory `base` (see [`join_path`]).
pub fn join(base: &str, rel: &str) -> (out: String)
    ensures
        out@ == join_path(base@, rel@),
{
    let b = chars_of(base);
    if absolute(rel) || b.len() == 0 {
        rel.to_owned()
    } else if b[b.len() - 1] == '/' {
        followed_by(base, rel)
    } else {
        let mut out = base.to_owned();
        out.push('/');
        out.append(rel);
        out
    }
}

} // verus!
