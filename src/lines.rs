use vstd::prelude::*;

verus! {

/// The pieces of `s` between its newline characters, in order; a string with
/// `k` newlines has `k + 1` pieces.
pub open spec fn pieces(s: Seq<char>) -> Seq<Seq<char>>
    decreases s.len(),
{
    if s.len() == 0 {
        seq![Seq::empty()]
    } else {
        let p = pieces(s.drop_last());
        if s.last() == '\n' {
            p.push(Seq::empty())
        } else {
            p.update(p.len() - 1, p.last().push(s.last()))
        }
    }
}

/// A line that was followed by a newline loses one carriage return at its end.
pub open spec fn strip_cr(piece: Seq<char>) -> Seq<char> {
    if piece.len() > 0 && piece.last() == '\r' {
        piece.drop_last()
    } else {
        piece
    }
}

/// The number of lines of `s`: a final newline does not start a new line.
pub open spec fn line_count(s: Seq<char>) -> nat {
    let p = pieces(s);
    if p.last().len() == 0 {
        (p.len() - 1) as nat
    } else {
        p.len()
    }
}

/// The lines of `s`, without their terminators ("\n" or "\r\n").
pub open spec fn lines_of(s: Seq<char>) -> Seq<Seq<char>> {
    let p = pieces(s);
    Seq::new(line_count(s), |i: int| if i + 1 < p.len() { strip_cr(p[i]) } else { p[i] })
}

pub proof fn lemma_pieces_nonempty(s: Seq<char>)
    ensures
        pieces(s).len() >= 1,
    decreases s.len(),
{
    if s.len() > 0 {
        lemma_pieces_nonempty(s.drop_last());
    }
}

/// Relies on str::split with the pattern '\n': the pieces between the newlines,
/// in order, including an empty one after a final newline.
#[verifier::external_body]
fn split_newlines(s: &str) -> (r: Vec<&str>)
    ensures
        r@.len() == pieces(s@).len(),
        forall|i: int| 0 <= i < r@.len() ==> (#[trigger] r@[i])@ == pieces(s@)[i],
{
    s.split('\n').collect()
}

fn strip_cr_exec(piece: &str) -> (r: &str)
    ensures
        r@ == strip_cr(piece@),
{
    let len = piece.unicode_len();
    if len > 0 && piece.get_char(len - 1) == '\r' {
        piece.substring_char(0, len - 1)
    } else {
        piece
    }
}

/// Splits `content` into its lines.
pub fn split_lines(content: &str) -> (r: Vec<&str>)
    ensures
        r@.len() == lines_of(content@).len(),
        forall|i: int| 0 <= i < r@.len() ==> (#[trigger] r@[i])@ == lines_of(content@)[i],
{
    let parts = split_newlines(content);
    proof {
        lemma_pieces_nonempty(content@);
    }
    let n = parts.len();
    let count: usize = if parts[n - 1].is_empty() { n - 1 } else { n };
    let mut out: Vec<&str> = Vec::new();
    let mut i: usize = 0;
    while i < count
        invariant
            n == parts@.len(),
            n == pieces(content@).len(),
            count == line_count(content@),
            count <= n,
            i <= count,
            forall|j: int| 0 <= j < n ==> (#[trigger] parts@[j])@ == pieces(content@)[j],
            out@.len() == i,
            forall|j: int| 0 <= j < i ==> (#[trigger] out@[j])@ == lines_of(content@)[j],
        decreases count - i,
    {
        let piece = parts[i];
        let line = if i + 1 < n { strip_cr_exec(piece) } else { piece };
        out.push(line);
        i += 1;
    }
    out
}

} // verus!
