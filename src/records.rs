//! Records: the front matter, the document that carries it, and the file
//! that a document is stored in.
use vstd::prelude::*;
use crate::codec::{join_document, join_spec, Frame, ParseError};

verus! {

/// A record identifier.
pub type DataId = u32;

/// A point in time, in UTC: whole seconds since the Unix epoch and the
/// nanoseconds past that second.
#[derive(Clone, Copy, Debug, PartialEq, Eq, Structural)]
pub struct Timestamp {
    pub secs: i64,
    pub nanos: u32,
}

/// The attributes of a record.
#[derive(Clone, Debug)]
pub struct FrontMatter {
    pub id: DataId,
    pub created_at: Timestamp,
    pub due_at: Option<Timestamp>,
    pub tags: Vec<String>,
}

/// A front matter and a body; the body is kept verbatim.
#[derive(Clone, Debug)]
pub struct TodoData {
    pub front_matter: FrontMatter,
    pub content: String,
}

/// A document bound to the path it is stored at.
#[derive(Clone, Debug)]
pub struct TodoFile {
    pub path: String,
    pub data: TodoData,
}

/// The character of decimal digit `d`.
pub open spec fn digit_char(d: int) -> char {
    if d == 0 { '0' }
    else if d == 1 { '1' }
    else if d == 2 { '2' }
    else if d == 3 { '3' }
    else if d == 4 { '4' }
    else if d == 5 { '5' }
    else if d == 6 { '6' }
    else if d == 7 { '7' }
    else if d == 8 { '8' }
    else { '9' }
}

/// The `width` lowest decimal digits of `n`, most significant first.
pub open spec fn padded_digits(n: nat, width: nat) -> Seq<char>
    decreases width,
{
    if width == 0 {
        Seq::empty()
    } else {
        padded_digits(n / 10, (width - 1) as nat).push(digit_char((n % 10) as int))
    }
}

/// The file name of the record with identifier `id`: ten digits, then
/// `.todo.md`.
pub open spec fn file_name_of(id: DataId) -> Seq<char> {
    padded_digits(id as nat, 10) + seq!['.', 't', 'o', 'd', 'o', '.', 'm', 'd']
}

/// The path of the record with identifier `id`, relative to the data root.
pub open spec fn path_of(id: DataId) -> Seq<char> {
    seq!['t', 'a', 's', 'k', 's', '/'] + file_name_of(id)
}

/// Ten to the power `k`.
pub open spec fn pow10(k: nat) -> nat
    decreases k,
{
    if k == 0 {
        1
    } else {
        10 * pow10((k - 1) as nat)
    }
}

proof fn lemma_padded_digits_len(n: nat, w: nat)
    ensures
        padded_digits(n, w).len() == w,
    decreases w,
{
    if w > 0 {
        lemma_padded_digits_len(n / 10, (w - 1) as nat);
    }
}

proof fn lemma_padded_digits_injective(a: nat, b: nat, w: nat)
    requires
        a < pow10(w),
        b < pow10(w),
        padded_digits(a, w) == padded_digits(b, w),
    ensures
        a == b,
    decreases w,
{
    if w > 0 {
        let p = pow10((w - 1) as nat);
        assert(padded_digits(a, w).drop_last() =~= padded_digits(a / 10, (w - 1) as nat));
        assert(padded_digits(b, w).drop_last() =~= padded_digits(b / 10, (w - 1) as nat));
        assert(padded_digits(a, w).last() == digit_char((a % 10) as int));
        assert(padded_digits(b, w).last() == digit_char((b % 10) as int));
        assert(a % 10 == b % 10);
        assert(a / 10 < p) by (nonlinear_arith)
            requires
                a < 10 * p,
        ;
        assert(b / 10 < p) by (nonlinear_arith)
            requires
                b < 10 * p,
        ;
        lemma_padded_digits_injective(a / 10, b / 10, (w - 1) as nat);
    }
}

/// Distinct identifiers are stored at distinct paths.
pub proof fn lemma_path_injective(a: DataId, b: DataId)
    requires
        a != b,
    ensures
        path_of(a) != path_of(b),
{
    if path_of(a) == path_of(b) {
        lemma_padded_digits_len(a as nat, 10);
        lemma_padded_digits_len(b as nat, 10);
        assert(path_of(a).subrange(6, 16) =~= padded_digits(a as nat, 10));
        assert(path_of(b).subrange(6, 16) =~= padded_digits(b as nat, 10));
        assert(pow10(10) == 10_000_000_000) by {
            reveal_with_fuel(pow10, 11);
        }
        lemma_padded_digits_injective(a as nat, b as nat, 10);
    }
}

fn digit_str(d: u32) -> (r: &'static str)
    requires
        d < 10,
    ensures
        r@ == seq![digit_char(d as int)],
{
    match d {
        0 => { proof { reveal_strlit("0"); } "0" },
        1 => { proof { reveal_strlit("1"); } "1" },
        2 => { proof { reveal_strlit("2"); } "2" },
        3 => { proof { reveal_strlit("3"); } "3" },
        4 => { proof { reveal_strlit("4"); } "4" },
        5 => { proof { reveal_strlit("5"); } "5" },
        6 => { proof { reveal_strlit("6"); } "6" },
        7 => { proof { reveal_strlit("7"); } "7" },
        8 => { proof { reveal_strlit("8"); } "8" },
        _ => { proof { reveal_strlit("9"); } "9" },
    }
}

fn padded_decimal(n: u32, width: u32) -> (r: String)
    ensures
        r@ == padded_digits(n as nat, width as nat),
    decreases width,
{
    if width == 0 {
        String::new()
    } else {
        let mut s = padded_decimal(n / 10, width - 1);
        s.append(digit_str(n % 10));
        proof {
            assert(s@ =~= padded_digits(n as nat, width as nat));
        }
        s
    }
}

/// The file name of the record with identifier `id`.
pub fn file_name(id: DataId) -> (r: String)
    ensures
        r@ == file_name_of(id),
{
    let mut s = padded_decimal(id, 10);
    s.append(".todo.md");
    proof {
        reveal_strlit(".todo.md");
        assert(s@ =~= file_name_of(id));
    }
    s
}

/// Whether `name` is the name of a file that may hold a record: it has the
/// extension `md`, with a non-empty stem before it.
pub open spec fn is_record_name(name: Seq<char>) -> bool {
    &&& name.len() > 3
    &&& name[name.len() - 3] == '.'
    &&& name[name.len() - 2] == 'm'
    &&& name[name.len() - 1] == 'd'
}

/// Whether a directory entry named `name` is a candidate record file.
pub fn is_record_file_name(name: &str) -> (r: bool)
    ensures
        r == is_record_name(name@),
{
    let n = name.unicode_len();
    n > 3 && name.get_char(n - 3) == '.' && name.get_char(n - 2) == 'm' && name.get_char(n - 1)
        == 'd'
}

impl TodoData {
    /// The document built from a split text and the outcome of decoding its
    /// front-matter segment: a decoding failure becomes a schema error that
    /// carries the decoder's message.
    pub fn from_frame(frame: Frame, decoded: Result<FrontMatter, String>) -> (r: Result<
        TodoData,
        ParseError,
    >)
        ensures
            match decoded {
                Ok(fm) => r matches Ok(d) && d.front_matter == fm && d.content@ == frame.body@,
                Err(m) => r == Err::<TodoData, ParseError>(ParseError::Schema(m)),
            },
    {
        match decoded {
            Ok(front_matter) => Ok(TodoData { front_matter, content: frame.body }),
            Err(m) => Err(ParseError::Schema(m)),
        }
    }

    /// The text of this document, given the encoding `front` of its front
    /// matter.
    pub fn to_text(&self, front: &str) -> (r: String)
        ensures
            r@ == join_spec(front@, self.content@),
    {
        join_document(front, self.content.as_str())
    }

    /// The UTF-8 bytes of this document, given the encoding `front` of its
    /// front matter.
    pub fn to_bytes(&self, front: &str) -> (r: Vec<u8>)
        ensures
            r@ == vstd::utf8::encode_utf8(join_spec(front@, self.content@)),
    {
        let text = self.to_text(front);
        text.as_str().as_bytes_vec()
    }
}

impl TodoFile {
    /// The path of the record with identifier `id`, relative to the data
    /// root.
    pub fn gen_filepath(id: DataId) -> (r: String)
        ensures
            r@ == path_of(id),
    {
        let mut s = String::new();
        s.append("tasks/");
        let name = file_name(id);
        s.append(name.as_str());
        proof {
            reveal_strlit("tasks/");
            assert(s@ =~= path_of(id));
        }
        s
    }

    /// The file of a new document: its path derives from its identifier.
    pub fn new_from_data(todo_data: TodoData) -> (r: TodoFile)
        ensures
            r.path@ == path_of(todo_data.front_matter.id),
            r.data == todo_data,
    {
        let path = TodoFile::gen_filepath(todo_data.front_matter.id);
        TodoFile { path, data: todo_data }
    }

    /// The identifier of this record.
    pub fn id(&self) -> (r: DataId)
        ensures
            r == self.data.front_matter.id,
    {
        self.data.front_matter.id
    }
}

} // verus!
