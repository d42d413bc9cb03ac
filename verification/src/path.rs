//! The grammar of a permission path.
//!
//! A path is a string of components separated by `/`. A leading `/` is a
//! component of its own, the root marker. Empty components are dropped, and
//! so is every component `.` but one that opens a path without root marker.
//! The last component is the file name; what stands before it is the
//! directory. A file name splits at its last dot into stem and extension.

use vstd::prelude::*;

verus! {

/// The characters of `s` behind its last `/`; all of `s` where it has none.
pub open spec fn open_piece(s: Seq<char>) -> Seq<char>
    decreases s.len(),
{
    if s.len() == 0 || s.last() == '/' {
        Seq::empty()
    } else {
        open_piece(s.drop_last()).push(s.last())
    }
}

/// Whether a piece between two separators counts as a component. `leading`
/// says that the piece opens the path.
pub open spec fn keeps(piece: Seq<char>, leading: bool) -> bool {
    piece.len() > 0 && (piece != seq!['.'] || leading)
}

/// The components of `s` that a `/` closes, the root marker among them.
pub open spec fn closed_components(s: Seq<char>) -> Seq<Seq<char>>
    decreases s.len(),
{
    if s.len() == 0 {
        Seq::empty()
    } else if s.last() != '/' {
        closed_components(s.drop_last())
    } else if s.len() == 1 {
        seq![seq!['/']]
    } else {
        let before = s.drop_last();
        let piece = open_piece(before);
        if keeps(piece, piece.len() == before.len()) {
            closed_components(before).push(piece)
        } else {
            closed_components(before)
        }
    }
}

/// The components of the path `s`, in order.
pub open spec fn components(s: Seq<char>) -> Seq<Seq<char>> {
    let piece = open_piece(s);
    if keeps(piece, piece.len() == s.len()) {
        closed_components(s).push(piece)
    } else {
        closed_components(s)
    }
}

/// Whether a path with these components has a directory part: it has a
/// last component, and that is not the root marker.
pub open spec fn has_parent(comps: Seq<Seq<char>>) -> bool {
    comps.len() > 0 && comps.last() != seq!['/']
}

/// Whether the component names a file: `.` and `..` do not.
pub open spec fn is_file_name(comp: Seq<char>) -> bool {
    comp != seq!['.'] && comp != seq!['.', '.']
}

/// Position of the last `.` in `name`, or -1.
pub open spec fn last_dot(name: Seq<char>) -> int
    decreases name.len(),
{
    if name.len() == 0 {
        -1
    } else if name.last() == '.' {
        name.len() - 1
    } else {
        last_dot(name.drop_last())
    }
}

/// The last dot stands inside the name, if anywhere.
pub proof fn lemma_last_dot_bound(name: Seq<char>)
    ensures
        -1 <= last_dot(name) < name.len(),
        last_dot(name) >= 0 ==> name[last_dot(name)] == '.',
    decreases name.len(),
{
    if name.len() > 0 && name.last() != '.' {
        lemma_last_dot_bound(name.drop_last());
    }
}

/// The stem of a file name: what stands before its last dot. A name without
/// a dot, or with its only dot in front, is its own stem.
pub open spec fn stem(name: Seq<char>) -> Seq<char> {
    if last_dot(name) <= 0 {
        name
    } else {
        name.take(last_dot(name))
    }
}

/// The extension of a file name: what stands behind its last dot, unless the
/// name has no dot or its only dot in front.
pub open spec fn extension(name: Seq<char>) -> Option<Seq<char>> {
    if last_dot(name) <= 0 {
        None
    } else {
        Some(name.skip(last_dot(name) + 1))
    }
}

/// The characters of a string, one by one.
pub fn chars_of(s: &str) -> (chars: Vec<char>)
    ensures
        chars@ == s@,
{
    let mut chars: Vec<char> = Vec::new();
    for c in it: s.chars()
        invariant
            it.seq() == s@,
            chars@ == s@.take(it.index() as int),
    {
        chars.push(c);
    }
    chars
}

/// A sequence is the one character `c` exactly when its length is one and
/// `c` stands first.
pub proof fn lemma_single_char(piece: Seq<char>, c: char)
    ensures
        piece == seq![c] <==> piece.len() == 1 && piece[0] == c,
{
    if piece.len() == 1 && piece[0] == c {
        assert(piece =~= seq![c]);
    }
    if piece == seq![c] {
        assert(seq![c].len() == 1 && seq![c][0] == c);
    }
}

/// Whether `spans` mark, in order, the components `comps` inside `chars`.
pub open spec fn spans_mark(
    spans: Seq<(usize, usize)>,
    chars: Seq<char>,
    comps: Seq<Seq<char>>,
) -> bool {
    &&& spans.len() == comps.len()
    &&& forall|i: int|
        0 <= i < spans.len() ==> {
            &&& (#[trigger] spans[i]).0 <= spans[i].1 <= chars.len()
            &&& chars.subrange(spans[i].0 as int, spans[i].1 as int) == comps[i]
        }
}

/// Where each component of the path stands in it, as a pair of the position
/// of its first character and the position behind its last.
pub fn component_spans(chars: &Vec<char>) -> (spans: Vec<(usize, usize)>)
    ensures
        spans_mark(spans@, chars@, components(chars@)),
{
    let n = chars.len();
    let mut spans: Vec<(usize, usize)> = Vec::new();
    let mut start: usize = 0;
    let mut i: usize = 0;
    while i < n
        invariant
            n == chars@.len(),
            start <= i <= n,
            chars@.subrange(start as int, i as int) == open_piece(chars@.take(i as int)),
            spans_mark(spans@, chars@, closed_components(chars@.take(i as int))),
        decreases n - i,
    {
        let ghost before = chars@.take(i as int);
        let ghost now = chars@.take(i + 1);
        assert(now.drop_last() =~= before);
        assert(now.last() == chars@[i as int]);
        if chars[i] == '/' {
            if i == 0 {
                spans.push((0, 1));
                assert(chars@.subrange(0, 1) =~= seq!['/']);
            } else if i > start && !(i - start == 1 && chars[start] == '.' && start != 0) {
                proof {
                    lemma_single_char(chars@.subrange(start as int, i as int), '.');
                }
                spans.push((start, i));
            } else {
                proof {
                    lemma_single_char(chars@.subrange(start as int, i as int), '.');
                }
            }
            start = i + 1;
            assert(chars@.subrange(start as int, i + 1) =~= Seq::<char>::empty());
        } else {
            assert(chars@.subrange(start as int, i + 1) =~= chars@.subrange(
                start as int,
                i as int,
            ).push(chars@[i as int]));
        }
        i += 1;
    }
    assert(chars@.take(n as int) =~= chars@);
    proof {
        lemma_single_char(chars@.subrange(start as int, n as int), '.');
    }
    if n > start && !(n - start == 1 && chars[start] == '.' && start != 0) {
        spans.push((start, n));
    }
    spans
}

/// Position of the last `.` among the characters `from..to`, counted from
/// `from`.
pub fn last_dot_in(chars: &Vec<char>, from: usize, to: usize) -> (dot: Option<usize>)
    requires
        from <= to <= chars@.len(),
    ensures
        match dot {
            Some(d) => d == last_dot(chars@.subrange(from as int, to as int)),
            None => last_dot(chars@.subrange(from as int, to as int)) == -1,
        },
{
    let ghost name = chars@.subrange(from as int, to as int);
    let mut dot: Option<usize> = None;
    let mut k: usize = from;
    while k < to
        invariant
            from <= k <= to <= chars@.len(),
            name == chars@.subrange(from as int, to as int),
            match dot {
                Some(d) => d == last_dot(name.take(k - from)),
                None => last_dot(name.take(k - from)) == -1,
            },
        decreases to - k,
    {
        assert(name.take(k - from + 1).drop_last() =~= name.take(k - from));
        assert(name.take(k - from + 1).last() == chars@[k as int]);
        if chars[k] == '.' {
            dot = Some(k - from);
        }
        k += 1;
    }
    assert(name.take(to - from) =~= name);
    dot
}

} // verus!
