//! Plain text: splitting, comparing, and rendering numbers.

use vstd::prelude::*;

verus! {

/// The pieces of `s` between the occurrences of `sep`; always at least one.
pub open spec fn pieces(s: Seq<char>, sep: char) -> Seq<Seq<char>>
    decreases s.len(),
{
    if s.len() == 0 {
        seq![Seq::<char>::empty()]
    } else {
        let before = pieces(s.drop_last(), sep);
        if s.last() == sep {
            before.push(Seq::empty())
        } else {
            before.drop_last().push(before.last().push(s.last()))
        }
    }
}

/// `parts` with `sep` between them.
pub open spec fn joined(parts: Seq<Seq<char>>, sep: char) -> Seq<char>
    decreases parts.len(),
{
    if parts.len() == 0 {
        Seq::empty()
    } else if parts.len() == 1 {
        parts[0]
    } else {
        joined(parts.drop_last(), sep).push(sep) + parts.last()
    }
}

/// Whether `c` is in none of the parts.
pub open spec fn lack(parts: Seq<Seq<char>>, c: char) -> bool {
    forall|i: int| 0 <= i < parts.len() ==> !(#[trigger] parts[i]).contains(c)
}

/// The two sides of the first `sep` in `s`, if there is one.
pub open spec fn sides(s: Seq<char>, sep: char) -> Option<(Seq<char>, Seq<char>)> {
    if s.contains(sep) {
        let i = s.index_of_first(sep).unwrap();
        Some((s.take(i), s.skip(i + 1)))
    } else {
        None
    }
}

/// `line` without the carriage return that it may end with.
pub open spec fn without_return(line: Seq<char>) -> Seq<char> {
    if line.len() > 0 && line.last() == '\r' {
        line.drop_last()
    } else {
        line
    }
}

/// The lines of `text`. A line ends with a line feed, before which a carriage
/// return belongs to the line ending; the last line may lack its ending.
pub open spec fn lines(text: Seq<char>) -> Seq<Seq<char>> {
    let all = pieces(text, '\n');
    let ended = all.drop_last().map_values(|line: Seq<char>| without_return(line));
    if all.last().len() == 0 {
        ended
    } else {
        ended.push(all.last())
    }
}

/// The character for a decimal digit.
pub open spec fn digit_char(d: nat) -> char {
    ('0' as u32 + d) as char
}

/// `n` in decimal notation, without leading zeros.
pub open spec fn decimal_text(n: nat) -> Seq<char>
    decreases n,
{
    if n < 10 {
        seq![digit_char(n)]
    } else {
        decimal_text(n / 10).push(digit_char(n % 10))
    }
}

/// The views of a list of strings.
pub open spec fn texts(list: Seq<String>) -> Seq<Seq<char>> {
    list.map_values(|s: String| s@)
}

proof fn lemma_lack_push(parts: Seq<Seq<char>>, part: Seq<char>, c: char)
    requires
        lack(parts, c),
        !part.contains(c),
    ensures
        lack(parts.push(part), c),
{
}

/// The pieces of a text hold no separator, and joined again they give the
/// text.
pub proof fn law_pieces(s: Seq<char>, sep: char)
    ensures
        pieces(s, sep).len() >= 1,
        lack(pieces(s, sep), sep),
        joined(pieces(s, sep), sep) == s,
    decreases s.len(),
{
    if s.len() > 0 {
        let front = s.drop_last();
        law_pieces(front, sep);
        let before = pieces(front, sep);
        let all = pieces(s, sep);
        if s.last() == sep {
            lemma_lack_push(before, Seq::empty(), sep);
            assert(all.drop_last() == before);
            assert(joined(all, sep) == s);
        } else {
            let last = before.last().push(s.last());
            assert(!last.contains(sep)) by {
                assert(!before[before.len() - 1].contains(sep));
                if last.contains(sep) {
                    let i = choose|i: int| 0 <= i < last.len() && last[i] == sep;
                    assert(before.last()[i] == sep);
                }
            }
            assert(lack(before.drop_last(), sep)) by {
                assert forall|i: int| 0 <= i < before.len() - 1 implies !(
                #[trigger] before.drop_last()[i]).contains(sep) by {
                    assert(!before[i].contains(sep));
                }
            }
            lemma_lack_push(before.drop_last(), last, sep);
            assert(all.drop_last() == before.drop_last());
            assert(joined(all, sep) == joined(before, sep).push(s.last()));
            assert(joined(all, sep) == s);
        }
    }
}

/// A separator and a piece after a text give one piece more.
proof fn lemma_pieces_append(s: Seq<char>, piece: Seq<char>, sep: char)
    requires
        !piece.contains(sep),
    ensures
        pieces(s.push(sep) + piece, sep) == pieces(s, sep).push(piece),
    decreases piece.len(),
{
    let whole = s.push(sep) + piece;
    if piece.len() == 0 {
        assert(whole == s.push(sep));
        assert(whole.drop_last() == s);
        assert(piece == Seq::<char>::empty());
    } else {
        let front = piece.drop_last();
        assert(!front.contains(sep)) by {
            if front.contains(sep) {
                let i = choose|i: int| 0 <= i < front.len() && front[i] == sep;
                assert(piece[i] == sep);
            }
        }
        lemma_pieces_append(s, front, sep);
        assert(whole.drop_last() == s.push(sep) + front);
        assert(piece[piece.len() - 1] != sep);
        assert(pieces(s, sep).push(front).drop_last() == pieces(s, sep));
        assert(front.push(piece.last()) == piece);
    }
}

/// What follows a separator leaves the pieces before it as they are.
pub proof fn lemma_pieces_prefix(s: Seq<char>, rest: Seq<char>, sep: char)
    ensures
        pieces(s.push(sep) + rest, sep).len() > pieces(s, sep).len(),
        pieces(s.push(sep) + rest, sep).take(pieces(s, sep).len() as int) == pieces(s, sep),
    decreases rest.len(),
{
    let whole = s.push(sep) + rest;
    let before = pieces(s, sep);
    if rest.len() == 0 {
        assert(whole == s.push(sep));
        assert(whole.drop_last() == s);
        assert(before.push(Seq::empty()).take(before.len() as int) == before);
    } else {
        let front = s.push(sep) + rest.drop_last();
        lemma_pieces_prefix(s, rest.drop_last(), sep);
        assert(whole.drop_last() == front);
        assert(pieces(whole, sep).take(before.len() as int) == pieces(front, sep).take(
            before.len() as int,
        ));
    }
}

proof fn lemma_one_piece(s: Seq<char>, sep: char)
    requires
        !s.contains(sep),
    ensures
        pieces(s, sep) == seq![s],
    decreases s.len(),
{
    if s.len() > 0 {
        let front = s.drop_last();
        assert(!front.contains(sep)) by {
            if front.contains(sep) {
                let i = choose|i: int| 0 <= i < front.len() && front[i] == sep;
                assert(s[i] == sep);
            }
        }
        lemma_one_piece(front, sep);
        assert(s[s.len() - 1] != sep);
        assert(front.push(s.last()) == s);
        assert(pieces(s, sep) == seq![s]);
    } else {
        assert(s == Seq::<char>::empty());
    }
}

/// Parts that hold no separator are the pieces of what they give when joined.
pub proof fn law_joined(parts: Seq<Seq<char>>, sep: char)
    requires
        parts.len() >= 1,
        lack(parts, sep),
    ensures
        pieces(joined(parts, sep), sep) == parts,
    decreases parts.len(),
{
    if parts.len() == 1 {
        assert(!parts[0].contains(sep));
        lemma_one_piece(parts[0], sep);
        assert(seq![parts[0]] == parts);
    } else {
        let front = parts.drop_last();
        assert(lack(front, sep)) by {
            assert forall|i: int| 0 <= i < front.len() implies !(#[trigger] front[i]).contains(
                sep,
            ) by {
                assert(!parts[i].contains(sep));
            }
        }
        law_joined(front, sep);
        assert(!parts[parts.len() - 1].contains(sep));
        lemma_pieces_append(joined(front, sep), parts.last(), sep);
        assert(front.push(parts.last()) == parts);
    }
}

/// The two sides of a separator give the text again, and the separator is not
/// in the left one.
pub proof fn law_sides(s: Seq<char>, sep: char)
    ensures
        match sides(s, sep) {
            Some((left, right)) => s == left.push(sep) + right && !left.contains(sep),
            None => !s.contains(sep),
        },
{
    if s.contains(sep) {
        s.index_of_first_ensures(sep);
        let i = s.index_of_first(sep).unwrap();
        assert(s == s.take(i).push(sep) + s.skip(i + 1));
        assert(!s.take(i).contains(sep)) by {
            if s.take(i).contains(sep) {
                let j = choose|j: int| 0 <= j < i && s.take(i)[j] == sep;
                assert(s[j] == sep);
            }
        }
    }
}

/// Words on lines of their own are read back, if none holds a line feed or
/// ends with a carriage return.
pub proof fn law_lines(words: Seq<Seq<char>>)
    requires
        lack(words, '\n'),
        forall|i: int| 0 <= i < words.len() ==> without_return(#[trigger] words[i]) == words[i],
    ensures
        lines(joined(words.push(Seq::empty()), '\n')) == words,
{
    lemma_lack_push(words, Seq::empty(), '\n');
    law_joined(words.push(Seq::empty()), '\n');
    let all = words.push(Seq::empty());
    assert(all.drop_last() == words);
    assert(words.map_values(|line: Seq<char>| without_return(line)) == words);
}

/// Around a separator a text falls into the pieces of its left side and then
/// those of its right side. Without a separator it is one piece.
pub proof fn law_pieces_around(left: Seq<char>, right: Seq<char>, sep: char)
    ensures
        pieces(left.push(sep) + right, sep) == pieces(left, sep) + pieces(right, sep),
        !left.contains(sep) ==> pieces(left, sep) == seq![left],
        !right.contains(sep) ==> pieces(right, sep) == seq![right],
    decreases right.len(),
{
    if !left.contains(sep) {
        lemma_one_piece(left, sep);
    }
    if !right.contains(sep) {
        lemma_one_piece(right, sep);
    }
    let whole = left.push(sep) + right;
    if right.len() == 0 {
        assert(whole.drop_last() == left);
        assert(right == Seq::<char>::empty());
        assert(pieces(whole, sep) == pieces(left, sep) + pieces(right, sep));
    } else {
        let front = right.drop_last();
        law_pieces_around(left, front, sep);
        law_pieces(front, sep);
        assert(whole.drop_last() == left.push(sep) + front);
        assert(pieces(whole, sep) == pieces(left, sep) + pieces(right, sep));
    }
}

/// A text is read line by line: each line up to its line feed, without the
/// carriage return before that, and what follows the last line feed, unless
/// that is nothing.
pub proof fn law_lines_read(line: Seq<char>, rest: Seq<char>)
    requires
        !line.contains('\n'),
    ensures
        lines(Seq::empty()) == Seq::<Seq<char>>::empty(),
        line.len() > 0 ==> lines(line) == seq![line],
        line.len() == 0 || line.last() != '\r' ==> lines(line.push('\n') + rest) == seq![line]
            + lines(rest),
        lines(line.push('\r').push('\n') + rest) == seq![line] + lines(rest),
{
    law_pieces_around(line, rest, '\n');
    law_pieces(rest, '\n');
    assert(lines(Seq::empty()) == Seq::<Seq<char>>::empty());
    if line.len() > 0 {
        assert(lines(line) == seq![line]);
    }
    if line.len() == 0 || line.last() != '\r' {
        assert(lines(line.push('\n') + rest) == seq![line] + lines(rest));
    }
    let returned = line.push('\r');
    assert(!returned.contains('\n')) by {
        if returned.contains('\n') {
            let i = choose|i: int| 0 <= i < returned.len() && returned[i] == '\n';
            assert(line[i] == '\n');
        }
    }
    law_pieces_around(returned, rest, '\n');
    assert(without_return(returned) == line);
    assert(lines(returned.push('\n') + rest) == seq![line] + lines(rest));
}

/// A number below ten is written as its digit, and ten times a number and a
/// digit as that number and that digit.
pub proof fn law_decimal_digits(n: nat, d: nat)
    requires
        d < 10,
    ensures
        decimal_text(d) == seq!["0123456789"@[d as int]],
        n > 0 ==> decimal_text(10 * n + d) == decimal_text(n).push("0123456789"@[d as int]),
{
    reveal_strlit("0123456789");
    assert((10 * n + d) / 10 == n);
    assert((10 * n + d) % 10 == d);
}

/// A list of strings says what its strings say, one by one.
pub proof fn law_texts(list: Seq<String>, i: int)
    ensures
        texts(list).len() == list.len(),
        0 <= i < list.len() ==> texts(list)[i] == list[i]@,
{
}

/// Whether two strings hold the same characters.
pub fn str_eq(a: &str, b: &str) -> (res: bool)
    ensures
        res == (a@ == b@),
{
    a.to_owned() == b.to_owned()
}

/// The characters of a string.
pub fn chars_of(s: &str) -> (res: Vec<char>)
    ensures
        res@ == s@,
{
    let mut res: Vec<char> = Vec::new();
    for c in it: s.chars()
        invariant
            it.seq() == s@,
            res@ == s@.take(it.index() as int),
    {
        proof {
            assert(s@.take(it.index() + 1) == s@.take(it.index() as int).push(c));
        }
        res.push(c);
    }
    assert(s@.take(s@.len() as int) == s@);
    res
}

/// Splits a string at every occurrence of a character.
pub fn split(s: &str, sep: char) -> (res: Vec<String>)
    ensures
        texts(res@) == pieces(s@, sep),
{
    let chars = chars_of(s);
    let mut res: Vec<String> = Vec::new();
    let mut start: usize = 0;
    let mut i: usize = 0;
    assert(s@.take(0) == Seq::<char>::empty());
    assert(s@.subrange(0, 0) == Seq::<char>::empty());
    assert(texts(res@) == Seq::<Seq<char>>::empty());
    assert(pieces(s@.take(0), sep) == texts(res@).push(s@.subrange(0, 0)));
    while i < chars.len()
        invariant
            chars@ == s@,
            start <= i <= chars.len(),
            pieces(s@.take(i as int), sep) == texts(res@).push(s@.subrange(start as int, i as int)),
        decreases chars.len() - i,
    {
        let ghost before = texts(res@);
        proof {
            assert(s@.take(i + 1).drop_last() == s@.take(i as int));
            assert(before.push(s@.subrange(start as int, i as int)).drop_last() == before);
        }
        if chars[i] == sep {
            res.push(s.substring_char(start, i).to_owned());
            start = i + 1;
            assert(texts(res@).drop_last() == before);
            assert(s@.subrange(start as int, i + 1) == Seq::<char>::empty());
        } else {
            assert(s@.subrange(start as int, i + 1) == s@.subrange(start as int, i as int).push(
                s@[i as int],
            ));
        }
        i = i + 1;
    }
    assert(s@.take(i as int) == s@);
    let ghost before = texts(res@);
    res.push(s.substring_char(start, i).to_owned());
    assert(texts(res@) == before.push(s@.subrange(start as int, i as int)));
    res
}

/// Splits a string at the first occurrence of a character.
pub fn split_once(s: &str, sep: char) -> (res: Option<(String, String)>)
    ensures
        match res {
            Some((left, right)) => sides(s@, sep) == Some((left@, right@)),
            None => sides(s@, sep) is None,
        },
{
    let chars = chars_of(s);
    let mut i: usize = 0;
    while i < chars.len()
        invariant
            chars@ == s@,
            i <= chars.len(),
            forall|j: int| 0 <= j < i ==> s@[j] != sep,
        decreases chars.len() - i,
    {
        if chars[i] == sep {
            let left = s.substring_char(0, i).to_owned();
            let right = s.substring_char(i + 1, chars.len()).to_owned();
            proof {
                assert(s@.contains(sep));
                s@.index_of_first_ensures(sep);
                assert(s@.index_of_first(sep) == Some(i as int));
                assert(left@ == s@.take(i as int));
                assert(right@ == s@.skip(i + 1));
            }
            return Some((left, right));
        }
        i = i + 1;
    }
    None
}

/// The words of a word list, one on each line of its text.
pub fn parse_wordlist(text: &str) -> (res: Vec<String>)
    ensures
        texts(res@) == lines(text@),
{
    let parts = split(text, '\n');
    let ghost all = pieces(text@, '\n');
    let mut res: Vec<String> = Vec::new();
    proof {
        law_pieces(text@, '\n');
        assert(parts@.len() == all.len());
    }
    let last: usize = parts.len() - 1;
    let mut i: usize = 0;
    while i < last
        invariant
            last + 1 == parts.len(),
            i <= last,
            texts(parts@) == all,
            texts(res@) == all.take(i as int).map_values(|line: Seq<char>| without_return(line)),
        decreases last - i,
    {
        let line = parts[i].as_str();
        let len = line.unicode_len();
        let ghost before = texts(res@);
        assert(line@ == all[i as int]);
        if len > 0 && line.get_char(len - 1) == '\r' {
            let kept = line.substring_char(0, len - 1).to_owned();
            assert(kept@ == without_return(line@));
            res.push(kept);
        } else {
            res.push(line.to_owned());
        }
        proof {
            assert(texts(res@) == before.push(without_return(line@)));
            assert(all.take(i + 1) == all.take(i as int).push(all[i as int]));
            assert(all.take(i + 1).map_values(|line: Seq<char>| without_return(line))
                == all.take(i as int).map_values(|line: Seq<char>| without_return(line)).push(
                without_return(line@),
            ));
        }
        i = i + 1;
    }
    let line = parts[last].as_str();
    let ghost before = texts(res@);
    proof {
        assert(line@ == all.last());
        assert(all.take(last as int) == all.drop_last());
    }
    if !line.is_empty() {
        res.push(line.to_owned());
        assert(texts(res@) == before.push(line@));
    }
    res
}

/// A number in decimal notation.
pub fn decimal(n: u128) -> (res: String)
    ensures
        res@ == decimal_text(n as nat),
    decreases n,
{
    let digit = (n % 10) as usize;
    proof {
        reveal_strlit("0123456789");
    }
    let last = "0123456789".substring_char(digit, digit + 1);
    assert(last@ == seq![digit_char((n % 10) as nat)]);
    if n < 10 {
        last.to_owned()
    } else {
        let mut res = decimal(n / 10);
        let ghost front = res@;
        res.append(last);
        assert(res@ == front.push(digit_char((n % 10) as nat)));
        res
    }
}

} // verus!
