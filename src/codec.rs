//! Framing of a record document: an opening delimiter line, the encoded
//! front matter, a closing delimiter line, then the body verbatim.
use vstd::prelude::*;

verus! {

/// The delimiter: three plus signs ending a line.
pub open spec fn marker() -> Seq<char> {
    seq!['+', '+', '+', '\n']
}

/// The delimiter starts at index `i` of `s`.
pub open spec fn marker_at(s: Seq<char>, i: int) -> bool {
    &&& 0 <= i
    &&& i + 4 <= s.len()
    &&& s[i] == '+'
    &&& s[i + 1] == '+'
    &&& s[i + 2] == '+'
    &&& s[i + 3] == '\n'
}

/// The delimiter occurs somewhere in `s`.
pub open spec fn has_marker(s: Seq<char>) -> bool {
    exists|i: int| marker_at(s, i)
}

/// The index of the first delimiter of `s` that starts at or after `from`.
pub open spec fn first_marker_from(s: Seq<char>, from: int) -> Option<int>
    decreases s.len() - from,
{
    if from + 4 > s.len() {
        None
    } else if marker_at(s, from) {
        Some(from)
    } else {
        first_marker_from(s, from + 1)
    }
}

/// Splits `s` at its first two delimiters into the front-matter segment and
/// the body; `None` when `s` holds fewer than two. What precedes the first
/// delimiter is dropped, and later delimiters stay in the body.
pub open spec fn split_spec(s: Seq<char>) -> Option<(Seq<char>, Seq<char>)> {
    match first_marker_from(s, 0) {
        None => None,
        Some(i) => match first_marker_from(s, i + 4) {
            None => None,
            Some(j) => Some((s.subrange(i + 4, j), s.subrange(j + 4, s.len() as int))),
        },
    }
}

/// The text of a document with front-matter text `front` and body `body`.
pub open spec fn join_spec(front: Seq<char>, body: Seq<char>) -> Seq<char> {
    marker() + front + seq!['\n'] + marker() + body
}

/// Why a text is not a record document.
#[derive(Clone, Debug, PartialEq, Eq)]
pub enum ParseError {
    /// The text holds fewer than two delimiters.
    Format,
    /// The front-matter block did not decode; the decoder's message.
    Schema(String),
}

/// The two segments of a document text that carry content.
#[derive(Clone, Debug)]
pub struct Frame {
    pub front: String,
    pub body: String,
}

proof fn lemma_first_marker_is(s: Seq<char>, from: int, k: int)
    requires
        0 <= from <= k,
        marker_at(s, k),
        forall|i: int| from <= i < k ==> !marker_at(s, i),
    ensures
        first_marker_from(s, from) == Some(k),
    decreases k - from,
{
    if from < k {
        lemma_first_marker_is(s, from + 1, k);
    }
}

proof fn lemma_first_marker_found(s: Seq<char>, from: int)
    requires
        0 <= from,
    ensures
        match first_marker_from(s, from) {
            Some(k) => from <= k && marker_at(s, k) && forall|i: int|
                from <= i < k ==> !marker_at(s, i),
            None => forall|i: int| from <= i ==> !marker_at(s, i),
        },
    decreases s.len() - from,
{
    if from + 4 <= s.len() && !marker_at(s, from) {
        lemma_first_marker_found(s, from + 1);
    }
}

fn chars_of(text: &str) -> (r: Vec<char>)
    ensures
        r@ == text@,
{
    let mut v: Vec<char> = Vec::new();
    for c in it: text.chars()
        invariant
            v@ == it.seq().take(it.index() as int),
            it.seq() == text@,
    {
        v.push(c);
    }
    v
}

fn marker_at_exec(chars: &Vec<char>, i: usize) -> (r: bool)
    ensures
        r == marker_at(chars@, i as int),
{
    let n = chars.len();
    if i > n || n - i < 4 {
        return false;
    }
    chars[i] == '+' && chars[i + 1] == '+' && chars[i + 2] == '+' && chars[i + 3] == '\n'
}

fn find_marker(chars: &Vec<char>, from: usize) -> (r: Option<usize>)
    ensures
        match r {
            Some(k) => k + 4 <= chars@.len() && first_marker_from(chars@, from as int) == Some(
                k as int,
            ),
            None => first_marker_from(chars@, from as int) is None,
        },
{
    let n = chars.len();
    let mut i: usize = from;
    while i <= n && n - i >= 4
        invariant
            n == chars@.len(),
            from <= i,
            first_marker_from(chars@, from as int) == first_marker_from(chars@, i as int),
        decreases n - i,
    {
        if marker_at_exec(chars, i) {
            return Some(i);
        }
        i = i + 1;
    }
    None
}

/// Splits a document text at its first two delimiters.
pub fn split_document(text: &str) -> (r: Result<Frame, ParseError>)
    ensures
        match split_spec(text@) {
            None => r == Err::<Frame, ParseError>(ParseError::Format),
            Some((front, body)) => r matches Ok(f) && f.front@ == front && f.body@ == body,
        },
{
    let chars = chars_of(text);
    let n = chars.len();
    match find_marker(&chars, 0) {
        None => Err(ParseError::Format),
        Some(i) => match find_marker(&chars, i + 4) {
            None => Err(ParseError::Format),
            Some(j) => {
                proof {
                    lemma_first_marker_found(text@, i + 4);
                }
                let front = text.substring_char(i + 4, j).to_owned();
                let body = text.substring_char(j + 4, n).to_owned();
                Ok(Frame { front, body })
            },
        },
    }
}

/// The document text with front-matter text `front` and body `body`: the
/// delimiter line, `front` and a line break, the delimiter line, `body`.
pub fn join_document(front: &str, body: &str) -> (r: String)
    ensures
        r@ == join_spec(front@, body@),
{
    let mut s = String::new();
    s.append("+++\n");
    s.append(front);
    s.append("\n");
    s.append("+++\n");
    s.append(body);
    proof {
        reveal_strlit("+++\n");
        reveal_strlit("\n");
        assert(s@ =~= join_spec(front@, body@));
    }
    s
}

/// Splitting the text of a document gives back its body verbatim, whatever
/// the body holds (delimiters included), and its front-matter text followed by
/// a line break, provided that the front-matter text followed by a line break
/// holds no delimiter.
pub proof fn lemma_round_trip(front: Seq<char>, body: Seq<char>)
    requires
        !has_marker(front + seq!['\n']),
    ensures
        split_spec(join_spec(front, body)) == Some((front + seq!['\n'], body)),
{
    let s = join_spec(front, body);
    let fl = front + seq!['\n'];
    let j: int = 4 + fl.len() as int;
    assert(s =~= marker() + fl + marker() + body);
    assert(marker_at(s, 0));
    lemma_first_marker_is(s, 0, 0);
    assert(marker_at(s, j));
    assert forall|i: int| 4 <= i < j implies !marker_at(s, i) by {
        if i + 4 <= j {
            if marker_at(s, i) {
                assert(marker_at(fl, i - 4));
            }
        }
    }
    lemma_first_marker_is(s, 4, j);
    assert(s.subrange(4, j) =~= fl);
    assert(s.subrange(j + 4, s.len() as int) =~= body);
}

/// A text splits into a document exactly when it holds at least two
/// delimiters; with none or one it is rejected.
pub proof fn lemma_split_needs_two_markers(s: Seq<char>)
    ensures
        split_spec(s) is Some <==> exists|i: int, j: int|
            i < j && marker_at(s, i) && marker_at(s, j),
{
    lemma_first_marker_found(s, 0);
    if let Some(i) = first_marker_from(s, 0) {
        lemma_first_marker_found(s, i + 4);
        if let Some(j) = first_marker_from(s, i + 4) {
            assert(i < j && marker_at(s, i) && marker_at(s, j));
        } else {
            assert forall|a: int, b: int| a < b && marker_at(s, a) implies !marker_at(s, b) by {
                if marker_at(s, b) {
                    if b < i + 4 {
                        assert(i <= a);
                    }
                }
            }
        }
    }
}

} // verus!
