//! Character-level helpers: comparing, splitting and joining text.
use vstd::prelude::*;
use vstd::string::StrSliceExecFns;

verus! {

/// Unicode `White_Space`, the set that `char::is_whitespace` accepts.
pub open spec fn is_space(c: char) -> bool {
    ('\u{9}' <= c && c <= '\u{d}') || c == ' ' || c == '\u{85}' || c == '\u{a0}'
        || c == '\u{1680}' || ('\u{2000}' <= c && c <= '\u{200a}') || c == '\u{2028}'
        || c == '\u{2029}' || c == '\u{202f}' || c == '\u{205f}' || c == '\u{3000}'
}

/// Whether `c` is a whitespace character.
pub fn is_space_char(c: char) -> (r: bool)
    ensures
        r == is_space(c),
{
    ('\u{9}' <= c && c <= '\u{d}') || c == ' ' || c == '\u{85}' || c == '\u{a0}'
        || c == '\u{1680}' || ('\u{2000}' <= c && c <= '\u{200a}') || c == '\u{2028}'
        || c == '\u{2029}' || c == '\u{202f}' || c == '\u{205f}' || c == '\u{3000}'
}

/// Whether two strings hold the same characters.
pub fn same_text(a: &str, b: &str) -> (r: bool)
    ensures
        r == (a@ == b@),
{
    let n = a.unicode_len();
    if n != b.unicode_len() {
        return false;
    }
    let mut i: usize = 0;
    while i < n
        invariant
            n == a@.len(),
            n == b@.len(),
            i <= n,
            a@.subrange(0, i as int) == b@.subrange(0, i as int),
        decreases n - i,
    {
        if a.get_char(i) != b.get_char(i) {
            assert(a@[i as int] != b@[i as int]);
            return false;
        }
        assert(a@.subrange(0, i + 1) == a@.subrange(0, i as int).push(a@[i as int]));
        assert(b@.subrange(0, i + 1) == b@.subrange(0, i as int).push(b@[i as int]));
        i = i + 1;
    }
    assert(a@ == a@.subrange(0, n as int));
    assert(b@ == b@.subrange(0, n as int));
    true
}


/// The text form of each string in `v`.
pub open spec fn views(v: Seq<String>) -> Seq<Seq<char>> {
    v.map_values(|t: String| t@)
}

/// Whether `s` ends inside a word, that is with a non-whitespace character.
pub open spec fn ends_in_word(s: Seq<char>) -> bool {
    s.len() > 0 && !is_space(s.last())
}

/// The words of `s`: its maximal runs of non-whitespace characters, in order.
pub open spec fn words(s: Seq<char>) -> Seq<Seq<char>>
    decreases s.len(),
{
    if s.len() == 0 {
        seq![]
    } else {
        let w = words(s.drop_last());
        let c = s.last();
        if is_space(c) {
            w
        } else if ends_in_word(s.drop_last()) {
            w.update(w.len() - 1, w.last().push(c))
        } else {
            w.push(seq![c])
        }
    }
}

/// A string holding the characters of `s` from `from` up to `to`.
fn slice_to_string(s: &str, from: usize, to: usize) -> (r: String)
    requires
        from <= to <= s@.len(),
    ensures
        r@ == s@.subrange(from as int, to as int),
{
    String::from_str(s.substring_char(from, to))
}

/// Splits `line` into its words. Whitespace only separates words and never
/// belongs to one; a line of whitespace has no words.
pub fn split_words(line: &str) -> (r: Vec<String>)
    ensures
        views(r@) == words(line@),
{
    let n = line.unicode_len();
    let mut done: Vec<String> = Vec::new();
    let mut in_word = false;
    let mut start: usize = 0;
    let mut i: usize = 0;
    while i < n
        invariant
            n == line@.len(),
            i <= n,
            in_word == ends_in_word(line@.subrange(0, i as int)),
            in_word ==> start < i,
            in_word ==> views(done@).push(line@.subrange(start as int, i as int)) == words(
                line@.subrange(0, i as int),
            ),
            !in_word ==> views(done@) == words(line@.subrange(0, i as int)),
        decreases n - i,
    {
        let c = line.get_char(i);
        let ghost pre = line@.subrange(0, i as int);
        let ghost cur = line@.subrange(0, i + 1);
        assert(cur.drop_last() == pre);
        assert(cur.last() == c);
        if is_space_char(c) {
            if in_word {
                let w = slice_to_string(line, start, i);
                let ghost before = done@;
                done.push(w);
                assert(views(done@) =~= views(before).push(w@));
            }
            in_word = false;
        } else {
            if in_word {
                assert(line@.subrange(start as int, i + 1) == line@.subrange(
                    start as int,
                    i as int,
                ).push(c));
            } else {
                start = i;
                assert(line@.subrange(start as int, i + 1) == seq![c]);
                assert(words(cur) == views(done@).push(seq![c]));
            }
            in_word = true;
        }
        i = i + 1;
    }
    assert(line@.subrange(0, n as int) == line@);
    if in_word {
        let w = slice_to_string(line, start, n);
        let ghost before = done@;
        done.push(w);
        assert(views(done@) =~= views(before).push(w@));
    }
    done
}


/// The fields of `s` between occurrences of `sep`, in order. There is
/// always one more field than separators; fields may be empty.
pub open spec fn fields(s: Seq<char>, sep: char) -> Seq<Seq<char>>
    decreases s.len(),
{
    if s.len() == 0 {
        seq![seq![]]
    } else {
        let f = fields(s.drop_last(), sep);
        let c = s.last();
        if c == sep {
            f.push(seq![])
        } else {
            f.update(f.len() - 1, f.last().push(c))
        }
    }
}

/// There is at least one field.
pub proof fn lemma_fields_nonempty(s: Seq<char>, sep: char)
    ensures
        fields(s, sep).len() >= 1,
    decreases s.len(),
{
    if s.len() > 0 {
        lemma_fields_nonempty(s.drop_last(), sep);
    }
}

/// Splits `s` at every occurrence of `sep`.
pub fn split_fields(s: &str, sep: char) -> (r: Vec<String>)
    ensures
        views(r@) == fields(s@, sep),
{
    let n = s.unicode_len();
    let mut done: Vec<String> = Vec::new();
    let mut start: usize = 0;
    let mut i: usize = 0;
    assert(views(done@) =~= seq![]);
    assert(s@.subrange(0, 0) =~= seq![]);
    while i < n
        invariant
            n == s@.len(),
            start <= i <= n,
            views(done@).push(s@.subrange(start as int, i as int)) == fields(
                s@.subrange(0, i as int),
                sep,
            ),
        decreases n - i,
    {
        let c = s.get_char(i);
        let ghost cur = s@.subrange(0, i + 1);
        assert(cur.drop_last() == s@.subrange(0, i as int));
        assert(cur.last() == c);
        proof {
            lemma_fields_nonempty(s@.subrange(0, i as int), sep);
        }
        if c == sep {
            let f = slice_to_string(s, start, i);
            let ghost before = done@;
            done.push(f);
            assert(views(done@) =~= views(before).push(f@));
            start = i + 1;
            assert(s@.subrange(start as int, i + 1) =~= seq![]);
        } else {
            assert(s@.subrange(start as int, i + 1) == s@.subrange(start as int, i as int).push(
                c,
            ));
        }
        i = i + 1;
    }
    assert(s@.subrange(0, n as int) == s@);
    let f = slice_to_string(s, start, n);
    let ghost before = done@;
    done.push(f);
    assert(views(done@) =~= views(before).push(f@));
    done
}

/// The strings of `ws` joined, with `sep` between each two neighbours.
pub open spec fn joined(ws: Seq<Seq<char>>, sep: Seq<char>) -> Seq<char>
    decreases ws.len(),
{
    if ws.len() == 0 {
        seq![]
    } else if ws.len() == 1 {
        ws[0]
    } else {
        joined(ws.drop_last(), sep) + sep + ws.last()
    }
}

/// Joins `ws` with `sep` between each two neighbours.
pub fn join_with(ws: &Vec<String>, sep: &str) -> (r: String)
    ensures
        r@ == joined(views(ws@), sep@),
{
    let mut out = String::new();
    let mut i: usize = 0;
    while i < ws.len()
        invariant
            i <= ws@.len(),
            out@ == joined(views(ws@.subrange(0, i as int)), sep@),
        decreases ws@.len() - i,
    {
        let ghost pre = views(ws@.subrange(0, i as int));
        let ghost cur = views(ws@.subrange(0, i + 1));
        assert(cur.drop_last() =~= pre);
        assert(cur.last() == ws@[i as int]@);
        if i > 0 {
            out.append(sep);
        }
        out.append(ws[i].as_str());
        proof {
            if i == 0 {
                assert(out@ =~= cur[0]);
            }
        }
        i = i + 1;
    }
    assert(ws@.subrange(0, ws@.len() as int) == ws@);
    out
}

/// `s` has a space followed by an opening parenthesis at `k`.
pub open spec fn opens_note_at(s: Seq<char>, k: int) -> bool {
    0 <= k && k + 1 < s.len() && s[k] == ' ' && s[k + 1] == '('
}

/// The part of `s` before the first `" ("`, or all of `s` where there is none.
pub open spec fn without_note(s: Seq<char>) -> Seq<char> {
    if exists|k: int| opens_note_at(s, k) {
        s.subrange(0, choose|k: int| opens_note_at(s, k) && forall|j: int| 0 <= j < k ==> !opens_note_at(s, j))
    } else {
        s
    }
}

/// Cuts `s` before its first `" ("`: what remains of a system error text
/// once its parenthesised note (such as an error number) is dropped.
pub fn strip_note(s: &str) -> (r: String)
    ensures
        r@ == without_note(s@),
{
    let n = s.unicode_len();
    let mut i: usize = 0;
    while i < n && i + 1 < n
        invariant
            n == s@.len(),
            i <= n,
            forall|j: int| 0 <= j < i ==> !opens_note_at(s@, j),
        decreases n - i,
    {
        if s.get_char(i) == ' ' && s.get_char(i + 1) == '(' {
            assert(opens_note_at(s@, i as int));
            let ghost k = choose|k: int|
                opens_note_at(s@, k) && forall|j: int| 0 <= j < k ==> !opens_note_at(s@, j);
            assert(opens_note_at(s@, i as int) && forall|j: int|
                0 <= j < i ==> !opens_note_at(s@, j));
            assert(k == i) by {
                if k > i {
                    assert(!opens_note_at(s@, i as int));
                }
            };
            return slice_to_string(s, 0, i);
        }
        i = i + 1;
    }
    assert forall|k: int| !opens_note_at(s@, k) by {
        if opens_note_at(s@, k) {
            assert(k < i);
        }
    };
    String::from_str(s)
}


/// The two texts one after another.
pub fn concat2(a: &str, b: &str) -> (r: String)
    ensures
        r@ == a@ + b@,
{
    let mut out = String::from_str(a);
    out.append(b);
    out
}

/// The three texts one after another.
pub fn concat3(a: &str, b: &str, c: &str) -> (r: String)
    ensures
        r@ == a@ + b@ + c@,
{
    let mut out = String::from_str(a);
    out.append(b);
    out.append(c);
    out
}

/// All of `ws` but the first, or nothing where `ws` is empty.
pub fn tail_of(ws: &Vec<String>) -> (r: Vec<String>)
    ensures
        ws@.len() > 0 ==> views(r@) == views(ws@).drop_first(),
        ws@.len() == 0 ==> r@.len() == 0,
{
    let mut out: Vec<String> = Vec::new();
    let mut i: usize = 1;
    assert(views(out@) =~= seq![]);
    while i < ws.len()
        invariant
            1 <= i,
            ws@.len() > 0 ==> i <= ws@.len(),
            ws@.len() > 0 ==> views(out@) == views(ws@).subrange(1, i as int),
            ws@.len() == 0 ==> out@.len() == 0,
        decreases ws@.len() - i,
    {
        let ghost before = out@;
        out.push(ws[i].clone());
        assert(views(out@) =~= views(before).push(ws@[i as int]@));
        assert(views(ws@).subrange(1, i + 1) =~= views(ws@).subrange(1, i as int).push(
            ws@[i as int]@,
        ));
        i = i + 1;
    }
    proof {
        if ws@.len() > 0 {
            assert(views(ws@).subrange(1, ws@.len() as int) =~= views(ws@).drop_first());
        }
    }
    out
}

} // verus!
